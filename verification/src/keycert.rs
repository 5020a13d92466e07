//! One private key and one certificate chain, each given as bytes or as the path of a file.
//!
//! Files are read by the caller, not here. A [`Keycert`] says which file it wants
//! ([`Keycert::key_file`], [`Keycert::cert_file`]) and takes what reading it gave
//! ([`Keycert::key_loaded`], [`Keycert::cert_loaded`]); it asks for each file until it has
//! been handed the file's contents once, and never after that.
use crate::error::{ConfigError, IoFailure};
use crate::identity::{key_is_supported, spec_ocsp_staple, CertifiedIdentity, IdentityView};
use crate::pem::{
    certs, pem_certificates, pem_pkcs8_keys, pem_rsa_keys, private_key, spec_private_key,
};
use std::path::PathBuf;
use vstd::prelude::*;

verus! {

/// `std::path::PathBuf`: the path of a file. It is kept and handed back, never looked into.
#[verifier::external_type_specification]
#[verifier::external_body]
pub struct ExPathBuf(PathBuf);

/// Private key and certificate.
#[derive(Debug)]
pub struct Keycert {
    key_path: Option<PathBuf>,
    key: Vec<u8>,
    key_read: bool,
    cert_path: Option<PathBuf>,
    cert: Vec<u8>,
    cert_read: bool,
    ocsp_resp: Vec<u8>,
}

/// What a [`Keycert`] holds.
pub struct KeycertView {
    /// The file of the private key, where one was named.
    pub key_path: Option<PathBuf>,
    /// The bytes of the private key; none as long as they are neither given nor read.
    pub key: Seq<u8>,
    /// Whether the contents of the file at `key_path` have been handed over.
    pub key_read: bool,
    /// The file of the certificates, where one was named.
    pub cert_path: Option<PathBuf>,
    /// The bytes of the certificates; none as long as they are neither given nor read.
    pub cert: Seq<u8>,
    /// Whether the contents of the file at `cert_path` have been handed over.
    pub cert_read: bool,
    /// The OCSP response; empty where there is none.
    pub ocsp_resp: Seq<u8>,
}

impl KeycertView {
    /// The file that has to be read before the private key is at hand: the one named, as long
    /// as there are no key bytes and its contents have not been handed over.
    pub open spec fn key_file(self) -> Option<PathBuf> {
        if self.key.len() == 0 && !self.key_read {
            self.key_path
        } else {
            None
        }
    }

    /// The file that has to be read before the certificates are at hand.
    pub open spec fn cert_file(self) -> Option<PathBuf> {
        if self.cert.len() == 0 && !self.cert_read {
            self.cert_path
        } else {
            None
        }
    }

    /// The first file that has to be read: that of the certificates before that of the key.
    pub open spec fn next_file(self) -> Option<PathBuf> {
        if self.cert_file().is_some() {
            self.cert_file()
        } else {
            self.key_file()
        }
    }

    /// The holder after the contents of the key file were handed over.
    pub open spec fn with_key_read(self, contents: Seq<u8>) -> KeycertView {
        KeycertView { key: contents, key_read: true, ..self }
    }

    /// The holder after the contents of the certificate file were handed over.
    pub open spec fn with_cert_read(self, contents: Seq<u8>) -> KeycertView {
        KeycertView { cert: contents, cert_read: true, ..self }
    }

    /// The holder after the contents of the file of `next_file` were handed over.
    pub open spec fn with_file_read(self, contents: Seq<u8>) -> KeycertView {
        if self.cert_file().is_some() {
            self.with_cert_read(contents)
        } else {
            self.with_key_read(contents)
        }
    }

    /// How many files have yet to be read.
    pub open spec fn files_wanted(self) -> nat {
        (if self.cert_file().is_some() {
            1nat
        } else {
            0nat
        }) + (if self.key_file().is_some() {
            1nat
        } else {
            0nat
        })
    }

    /// The identity that these bytes give where the signer is made, or the fault that they
    /// give whatever becomes of the signer. The certificates are looked at before the key. What
    /// goes to the signer is the chain of the PEM text, its first private key, and the OCSP
    /// response as the staple; a chain without a certificate, and a key that no signature
    /// scheme takes, fail there.
    pub open spec fn candidate(self) -> Result<IdentityView, ConfigError> {
        if self.cert.len() == 0 {
            Err(ConfigError::EmptyCert)
        } else {
            match pem_certificates(self.cert) {
                None => Err(ConfigError::CertificateParseError),
                Some(chain) => if self.key.len() == 0 {
                    Err(ConfigError::EmptyKey)
                } else {
                    match spec_private_key(pem_pkcs8_keys(self.key), pem_rsa_keys(self.key)) {
                        Err(fault) => Err(fault),
                        Ok(der) => if chain.len() > 0 && key_is_supported(der) {
                            Ok(
                                IdentityView {
                                    cert: chain,
                                    key: der,
                                    ocsp: spec_ocsp_staple(self.ocsp_resp),
                                },
                            )
                        } else {
                            Err(ConfigError::UnsupportedKeyAlgorithm)
                        },
                    }
                },
            }
        }
    }
}

/// Each file is asked for once: when its contents have been handed over, be they empty, it is
/// not asked for again, and one file fewer is left to be read. No file is asked for exactly
/// when none is left.
pub proof fn lemma_file_read_once(keycert: KeycertView, contents: Seq<u8>)
    ensures
        keycert.with_cert_read(contents).cert_file().is_none(),
        keycert.with_key_read(contents).key_file().is_none(),
        keycert.next_file().is_none() <==> keycert.files_wanted() == 0,
        keycert.next_file().is_some() ==> keycert.with_file_read(contents).files_wanted()
            == keycert.files_wanted() - 1,
{
}

impl View for Keycert {
    type V = KeycertView;

    closed spec fn view(&self) -> KeycertView {
        KeycertView {
            key_path: self.key_path,
            key: self.key@,
            key_read: self.key_read,
            cert_path: self.cert_path,
            cert: self.cert@,
            cert_read: self.cert_read,
            ocsp_resp: self.ocsp_resp@,
        }
    }
}

impl Default for Keycert {
    fn default() -> (keycert: Self)
        ensures
            keycert@ == Keycert::spec_new(),
    {
        Keycert::new()
    }
}

impl Keycert {
    /// A holder with nothing in it.
    pub open spec fn spec_new() -> KeycertView {
        KeycertView {
            key_path: None,
            key: Seq::empty(),
            key_read: false,
            cert_path: None,
            cert: Seq::empty(),
            cert_read: false,
            ocsp_resp: Seq::empty(),
        }
    }

    /// Create a new keycert.
    pub fn new() -> (keycert: Self)
        ensures
            keycert@ == Keycert::spec_new(),
    {
        Keycert {
            key_path: None,
            key: Vec::new(),
            key_read: false,
            cert_path: None,
            cert: Vec::new(),
            cert_read: false,
            ocsp_resp: Vec::new(),
        }
    }

    /// Names the file of the private key. The file is asked for only while there are no key
    /// bytes.
    pub fn with_key_path(self, path: PathBuf) -> (keycert: Self)
        ensures
            keycert@ == (KeycertView { key_path: Some(path), key_read: false, ..self@ }),
    {
        let mut keycert = self;
        keycert.key_path = Some(path);
        keycert.key_read = false;
        keycert
    }

    /// Sets the private key by its bytes.
    pub fn with_key(self, key: Vec<u8>) -> (keycert: Self)
        ensures
            keycert@ == (KeycertView { key: key@, ..self@ }),
    {
        let mut keycert = self;
        keycert.key = key;
        keycert
    }

    /// Names the file of the certificates. The file is asked for only while there are no
    /// certificate bytes.
    pub fn with_cert_path(self, path: PathBuf) -> (keycert: Self)
        ensures
            keycert@ == (KeycertView { cert_path: Some(path), cert_read: false, ..self@ }),
    {
        let mut keycert = self;
        keycert.cert_path = Some(path);
        keycert.cert_read = false;
        keycert
    }

    /// Sets the certificates by their bytes.
    pub fn with_cert(self, cert: Vec<u8>) -> (keycert: Self)
        ensures
            keycert@ == (KeycertView { cert: cert@, ..self@ }),
    {
        let mut keycert = self;
        keycert.cert = cert;
        keycert
    }

    /// The file that has to be read before [`Keycert::key`] can give the key.
    pub fn key_file(&self) -> (path: Option<&PathBuf>)
        ensures
            match path {
                Some(file) => self@.key_file() == Some(*file),
                None => self@.key_file().is_none(),
            },
    {
        if self.key.len() == 0 && !self.key_read {
            self.key_path.as_ref()
        } else {
            None
        }
    }

    /// The file that has to be read before [`Keycert::cert`] can give the certificates.
    pub fn cert_file(&self) -> (path: Option<&PathBuf>)
        ensures
            match path {
                Some(file) => self@.cert_file() == Some(*file),
                None => self@.cert_file().is_none(),
            },
    {
        if self.cert.len() == 0 && !self.cert_read {
            self.cert_path.as_ref()
        } else {
            None
        }
    }

    /// Takes what reading the file of [`Keycert::key_file`] gave. The contents become the key
    /// bytes and the file is not asked for again; a failure is handed back and changes
    /// nothing. Where no file is asked for, nothing changes.
    pub fn key_loaded(&mut self, outcome: Result<Vec<u8>, IoFailure>) -> (taken: Result<
        (),
        ConfigError,
    >)
        ensures
            old(self)@.key_file().is_none() ==> taken.is_ok() && final(self)@ == old(self)@,
            old(self)@.key_file().is_some() ==> match outcome {
                Ok(contents) => taken.is_ok() && final(self)@ == old(self)@.with_key_read(
                    contents@,
                ),
                Err(failure) => taken == Err::<(), ConfigError>(ConfigError::IoFailure(failure))
                    && final(self)@ == old(self)@,
            },
    {
        if self.key.len() == 0 && !self.key_read && self.key_path.is_some() {
            match outcome {
                Ok(contents) => {
                    self.key = contents;
                    self.key_read = true;
                    Ok(())
                },
                Err(failure) => Err(ConfigError::IoFailure(failure)),
            }
        } else {
            Ok(())
        }
    }

    /// Takes what reading the file of [`Keycert::cert_file`] gave. The contents become the
    /// certificate bytes and the file is not asked for again; a failure is handed back and
    /// changes nothing. Where no file is asked for, nothing changes.
    pub fn cert_loaded(&mut self, outcome: Result<Vec<u8>, IoFailure>) -> (taken: Result<
        (),
        ConfigError,
    >)
        ensures
            old(self)@.cert_file().is_none() ==> taken.is_ok() && final(self)@ == old(self)@,
            old(self)@.cert_file().is_some() ==> match outcome {
                Ok(contents) => taken.is_ok() && final(self)@ == old(self)@.with_cert_read(
                    contents@,
                ),
                Err(failure) => taken == Err::<(), ConfigError>(ConfigError::IoFailure(failure))
                    && final(self)@ == old(self)@,
            },
    {
        if self.cert.len() == 0 && !self.cert_read && self.cert_path.is_some() {
            match outcome {
                Ok(contents) => {
                    self.cert = contents;
                    self.cert_read = true;
                    Ok(())
                },
                Err(failure) => Err(ConfigError::IoFailure(failure)),
            }
        } else {
            Ok(())
        }
    }

    /// The first file that has to be read before the identity can be made: that of the
    /// certificates before that of the key.
    pub fn next_file(&self) -> (path: Option<&PathBuf>)
        ensures
            match path {
                Some(file) => self@.next_file() == Some(*file),
                None => self@.next_file().is_none(),
            },
    {
        match self.cert_file() {
            Some(file) => Some(file),
            None => self.key_file(),
        }
    }

    /// Takes what reading the file of [`Keycert::next_file`] gave. The contents are kept and
    /// the file is not asked for again; a failure is handed back and changes nothing. Where no
    /// file is asked for, nothing changes.
    pub fn file_loaded(&mut self, outcome: Result<Vec<u8>, IoFailure>) -> (taken: Result<
        (),
        ConfigError,
    >)
        ensures
            old(self)@.next_file().is_none() ==> taken.is_ok() && final(self)@ == old(self)@,
            old(self)@.next_file().is_some() ==> match outcome {
                Ok(contents) => taken.is_ok() && final(self)@ == old(self)@.with_file_read(
                    contents@,
                ),
                Err(failure) => taken == Err::<(), ConfigError>(ConfigError::IoFailure(failure))
                    && final(self)@ == old(self)@,
            },
    {
        if self.cert_file().is_some() {
            self.cert_loaded(outcome)
        } else {
            self.key_loaded(outcome)
        }
    }

    /// Get the private key: its bytes, and `EmptyKey` where there are none.
    pub fn key(&self) -> (key: Result<&[u8], ConfigError>)
        ensures
            match key {
                Ok(bytes) => bytes@ == self@.key && self@.key.len() > 0,
                Err(fault) => fault == ConfigError::EmptyKey && self@.key.len() == 0,
            },
    {
        if self.key.len() == 0 {
            Err(ConfigError::EmptyKey)
        } else {
            Ok(self.key.as_slice())
        }
    }

    /// Get the cert: the bytes of the certificates, and `EmptyCert` where there are none.
    pub fn cert(&self) -> (cert: Result<&[u8], ConfigError>)
        ensures
            match cert {
                Ok(bytes) => bytes@ == self@.cert && self@.cert.len() > 0,
                Err(fault) => fault == ConfigError::EmptyCert && self@.cert.len() == 0,
            },
    {
        if self.cert.len() == 0 {
            Err(ConfigError::EmptyCert)
        } else {
            Ok(self.cert.as_slice())
        }
    }

    /// Get ocsp_resp.
    pub fn ocsp_resp(&self) -> (ocsp_resp: &[u8])
        ensures
            ocsp_resp@ == self@.ocsp_resp,
    {
        self.ocsp_resp.as_slice()
    }

    /// Makes the identity to serve from the bytes at hand: the certificates of the PEM text,
    /// the private key of [`private_key`], its signer, and the OCSP response as the staple
    /// unless it is empty. Any fault on the way leaves no identity.
    ///
    /// Where the bytes give a fault, that fault is returned. Where they give a candidate, the
    /// signer is asked for: the identity is then exactly the candidate, and the only other
    /// outcome is `UnsupportedKeyAlgorithm`, which the making of the signer may end in.
    pub fn build_certified_key(&self) -> (made: Result<CertifiedIdentity, ConfigError>)
        ensures
            self@.candidate() matches Err(fault) ==> made == Err::<CertifiedIdentity, ConfigError>(
                fault,
            ),
            made matches Ok(identity) ==> self@.candidate() == Ok::<IdentityView, ConfigError>(
                identity@,
            ),
            made matches Err(fault) ==> self@.candidate() == Err::<IdentityView, ConfigError>(fault)
                || fault == ConfigError::UnsupportedKeyAlgorithm,
    {
        let cert = match self.cert() {
            Ok(bytes) => bytes,
            Err(fault) => { return Err(fault); },
        };
        let chain = match certs(cert) {
            Some(chain) => chain,
            None => { return Err(ConfigError::CertificateParseError); },
        };
        let key = match self.key() {
            Ok(bytes) => bytes,
            Err(fault) => { return Err(fault); },
        };
        let der = match private_key(key) {
            Ok(der) => der,
            Err(fault) => { return Err(fault); },
        };
        assert(chain.deep_view().len() == chain@.len());
        CertifiedIdentity::new(chain, der, self.ocsp_resp())
    }
}

} // verus!
