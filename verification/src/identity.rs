//! A server's identity, ready to be served: a certificate chain, the signing key that belongs
//! to it, and a stapled OCSP response where there is one.
use crate::error::ConfigError;
use std::sync::Arc;
use tokio_rustls::rustls::sign::CertifiedKey;
use vstd::prelude::*;

verus! {

/// `rustls::sign::CertifiedKey`: a chain, a signer and the staples, as a handshake takes them.
/// Nothing inside it is seen here.
#[verifier::external_type_specification]
#[verifier::external_body]
pub struct ExCertifiedKey(CertifiedKey);

/// Whether the bytes are a DER-encoded private key of a kind, and in an encoding, that
/// `rustls::sign::any_supported_type` takes.
pub uninterp spec fn key_is_supported(key: Seq<u8>) -> bool;

/// Calls `rustls::sign::any_supported_type` on `key`, and hands the signing key that it
/// returned to `CertifiedKey::new`, with the certificates of `cert` as the chain; `ocsp` is
/// then set as the OCSP response. `CertifiedKey::new` asks for a chain that is not empty.
///
/// Not proved: that the first call succeeds only on the keys of `key_is_supported`. It may
/// fail on such a key too: for an ECDSA key it draws from the random source of the system,
/// and reports a failure there as it reports a key that it does not take. Nothing is stated
/// of what the `CertifiedKey` holds.
#[verifier::external_body]
pub(crate) fn certified_key(cert: &Vec<Vec<u8>>, key: &Vec<u8>, ocsp: &Option<Vec<u8>>) -> (certified:
    Option<CertifiedKey>)
    requires
        cert@.len() > 0,
    ensures
        certified.is_some() ==> key_is_supported(key@),
{
    let der = tokio_rustls::rustls::PrivateKey(key.clone());
    let signer = tokio_rustls::rustls::sign::any_supported_type(&der).ok()?;
    let chain = cert.iter().cloned().map(tokio_rustls::rustls::Certificate).collect();
    let mut certified = CertifiedKey::new(chain, signer);
    certified.ocsp = ocsp.clone();
    Some(certified)
}

/// What an identity stands for.
pub struct IdentityView {
    /// The certificates, DER-encoded, the server's own first.
    pub cert: Seq<Seq<u8>>,
    /// The private key, DER-encoded, that the signer was made from.
    pub key: Seq<u8>,
    /// The stapled OCSP response.
    pub ocsp: Option<Seq<u8>>,
}

/// The staple that goes with an OCSP response: the response itself, and none where it is empty.
pub open spec fn spec_ocsp_staple(ocsp_resp: Seq<u8>) -> Option<Seq<u8>> {
    if ocsp_resp.len() > 0 {
        Some(ocsp_resp)
    } else {
        None
    }
}

/// The staple that goes with an OCSP response: the response itself, and none where it is empty.
pub fn ocsp_staple(ocsp_resp: &[u8]) -> (staple: Option<Vec<u8>>)
    ensures
        match staple {
            Some(bytes) => spec_ocsp_staple(ocsp_resp@) == Some(bytes@),
            None => spec_ocsp_staple(ocsp_resp@).is_none(),
        },
{
    if ocsp_resp.len() > 0 {
        Some(vstd::slice::slice_to_vec(ocsp_resp))
    } else {
        None
    }
}

/// The bytes of a staple, where there is one.
pub open spec fn staple_view(ocsp: Option<Vec<u8>>) -> Option<Seq<u8>> {
    match ocsp {
        Some(bytes) => Some(bytes@),
        None => None,
    }
}

/// A certificate chain with its signing key. The chain holds at least one certificate: the
/// server's own, which comes first.
pub struct CertifiedIdentity {
    cert: Vec<Vec<u8>>,
    key: Ghost<Seq<u8>>,
    ocsp: Option<Vec<u8>>,
    certified: Arc<CertifiedKey>,
}

impl View for CertifiedIdentity {
    type V = IdentityView;

    closed spec fn view(&self) -> IdentityView {
        IdentityView { cert: self.cert.deep_view(), key: self.key@, ocsp: staple_view(self.ocsp) }
    }
}

impl CertifiedIdentity {
    #[verifier::type_invariant]
    spec fn has_leaf(&self) -> bool {
        self.cert@.len() > 0
    }

    /// The chain and the signer that the identity holds, in the form in which a `rustls`
    /// handshake takes them.
    pub closed spec fn spec_certified_key(&self) -> Arc<CertifiedKey> {
        self.certified
    }

    /// The identity of a certificate chain and a DER-encoded private key, with the staple for
    /// `ocsp_resp`. A chain without a certificate gives none, and no signer is asked for.
    /// Else the signer is asked for, and there is an identity exactly where it was made: for
    /// a key that no signature scheme takes it never is, for another key it may fail to be.
    /// Every fault is `UnsupportedKeyAlgorithm`.
    pub fn new(cert: Vec<Vec<u8>>, key: Vec<u8>, ocsp_resp: &[u8]) -> (made: Result<
        CertifiedIdentity,
        ConfigError,
    >)
        ensures
            match made {
                Ok(identity) => cert@.len() > 0 && key_is_supported(key@) && identity@ == (
                IdentityView {
                    cert: cert.deep_view(),
                    key: key@,
                    ocsp: spec_ocsp_staple(ocsp_resp@),
                }),
                Err(fault) => fault == ConfigError::UnsupportedKeyAlgorithm,
            },
            cert@.len() == 0 || !key_is_supported(key@) ==> made.is_err(),
    {
        let ocsp = ocsp_staple(ocsp_resp);
        let certified = if cert.len() > 0 {
            certified_key(&cert, &key, &ocsp)
        } else {
            None
        };
        CertifiedIdentity::assemble(cert, key, ocsp, certified)
    }

    /// Puts an identity together from its parts and from what asking for the signer gave:
    /// `certified` is the outcome of that, and `key` the key that was asked for. There is an
    /// identity exactly where the chain holds a certificate and the signer was made; it then
    /// holds these parts and that outcome. Every fault is `UnsupportedKeyAlgorithm`.
    pub fn assemble(
        cert: Vec<Vec<u8>>,
        key: Vec<u8>,
        ocsp: Option<Vec<u8>>,
        certified: Option<CertifiedKey>,
    ) -> (made: Result<CertifiedIdentity, ConfigError>)
        ensures
            made.is_ok() == (cert@.len() > 0 && certified.is_some()),
            match made {
                Ok(identity) => identity@ == (IdentityView {
                    cert: cert.deep_view(),
                    key: key@,
                    ocsp: staple_view(ocsp),
                }) && Some(*identity.spec_certified_key()) == certified,
                Err(fault) => fault == ConfigError::UnsupportedKeyAlgorithm,
            },
    {
        if cert.len() == 0 {
            return Err(ConfigError::UnsupportedKeyAlgorithm);
        }
        match certified {
            Some(certified) => Ok(
                CertifiedIdentity { cert, key: Ghost(key@), ocsp, certified: Arc::new(certified) },
            ),
            None => Err(ConfigError::UnsupportedKeyAlgorithm),
        }
    }

    /// The certificates, DER-encoded, the server's own first. There is at least one.
    pub fn cert(&self) -> (cert: &Vec<Vec<u8>>)
        ensures
            cert.deep_view() == self@.cert,
            cert@.len() > 0,
    {
        proof {
            use_type_invariant(self);
        }
        &self.cert
    }

    /// The stapled OCSP response, if there is one.
    pub fn ocsp(&self) -> (ocsp: &Option<Vec<u8>>)
        ensures
            staple_view(*ocsp) == self@.ocsp,
    {
        &self.ocsp
    }

    /// The chain, the signer and the staple in the form in which a `rustls` handshake takes
    /// them: what asking for the signer gave when the identity was made.
    pub fn certified_key(&self) -> (certified: &Arc<CertifiedKey>)
        ensures
            *certified == self.spec_certified_key(),
    {
        &self.certified
    }
}

} // verus!
