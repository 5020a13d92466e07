//! The sections of a PEM text, read by `rustls_pemfile`, and the choice of the private key among
//! them.
use crate::error::ConfigError;
use vstd::prelude::*;

verus! {

/// The DER contents of the `CERTIFICATE` sections of a PEM text, in the order of the text, and
/// `None` for a text that `rustls_pemfile::certs` rejects.
pub uninterp spec fn pem_certificates(pem: Seq<u8>) -> Option<Seq<Seq<u8>>>;

/// The DER contents of the `PRIVATE KEY` sections of a PEM text, in the order of the text, and
/// `None` for a text that `rustls_pemfile::pkcs8_private_keys` rejects.
pub uninterp spec fn pem_pkcs8_keys(pem: Seq<u8>) -> Option<Seq<Seq<u8>>>;

/// The DER contents of the `RSA PRIVATE KEY` sections of a PEM text, in the order of the text,
/// and `None` for a text that `rustls_pemfile::rsa_private_keys` rejects.
pub uninterp spec fn pem_rsa_keys(pem: Seq<u8>) -> Option<Seq<Seq<u8>>>;

/// The sections that a parse returned, as sequences of bytes.
pub open spec fn sections(parsed: Option<Vec<Vec<u8>>>) -> Option<Seq<Seq<u8>>> {
    match parsed {
        Some(found) => Some(found.deep_view()),
        None => None,
    }
}

/// Calls `rustls_pemfile::certs` on the bytes of `pem`. Not proved: that the call returns
/// `pem_certificates` of these bytes, its error turned into `None`, and that it finds no
/// certificate, and no fault, in a text without any byte.
#[verifier::external_body]
pub(crate) fn certs(pem: &[u8]) -> (parsed: Option<Vec<Vec<u8>>>)
    ensures
        sections(parsed) == pem_certificates(pem@),
        pem@.len() == 0 ==> sections(parsed) == Some(Seq::<Seq<u8>>::empty()),
{
    let mut reader = pem;
    rustls_pemfile::certs(&mut reader).ok()
}

/// Calls `rustls_pemfile::pkcs8_private_keys` on the bytes of `pem`. Not proved: that the call
/// returns `pem_pkcs8_keys` of these bytes, its error turned into `None`.
#[verifier::external_body]
pub(crate) fn pkcs8_private_keys(pem: &[u8]) -> (parsed: Option<Vec<Vec<u8>>>)
    ensures
        sections(parsed) == pem_pkcs8_keys(pem@),
{
    let mut reader = pem;
    rustls_pemfile::pkcs8_private_keys(&mut reader).ok()
}

/// Calls `rustls_pemfile::rsa_private_keys` on the bytes of `pem`. Not proved: that the call
/// returns `pem_rsa_keys` of these bytes, its error turned into `None`.
#[verifier::external_body]
pub(crate) fn rsa_private_keys(pem: &[u8]) -> (parsed: Option<Vec<Vec<u8>>>)
    ensures
        sections(parsed) == pem_rsa_keys(pem@),
{
    let mut reader = pem;
    rustls_pemfile::rsa_private_keys(&mut reader).ok()
}

/// The first key of one parse: a fault where the text was rejected, nothing where it holds no
/// key of the kind.
pub open spec fn spec_first_key(parsed: Option<Seq<Seq<u8>>>) -> Result<Option<Seq<u8>>, ConfigError> {
    match parsed {
        None => Err(ConfigError::PrivateKeyParseError),
        Some(keys) => if keys.len() > 0 {
            Ok(Some(keys[0]))
        } else {
            Ok(None)
        },
    }
}

/// The private key that a PEM text gives, from what the two parses of it returned: the first
/// PKCS#8 key where there is one, else the first RSA key.
pub open spec fn spec_private_key(
    pkcs8: Option<Seq<Seq<u8>>>,
    rsa: Option<Seq<Seq<u8>>>,
) -> Result<Seq<u8>, ConfigError> {
    match spec_first_key(pkcs8) {
        Err(fault) => Err(fault),
        Ok(Some(key)) => Ok(key),
        Ok(None) => match spec_first_key(rsa) {
            Err(fault) => Err(fault),
            Ok(Some(key)) => Ok(key),
            Ok(None) => Err(ConfigError::PrivateKeyParseError),
        },
    }
}

/// A text with a PKCS#8 key gives that key, whatever the parse for RSA keys makes of the text.
pub proof fn lemma_pkcs8_comes_first(
    pkcs8: Seq<Seq<u8>>,
    rsa: Option<Seq<Seq<u8>>>,
    other_rsa: Option<Seq<Seq<u8>>>,
)
    requires
        pkcs8.len() > 0,
    ensures
        spec_private_key(Some(pkcs8), rsa) == Ok::<Seq<u8>, ConfigError>(pkcs8[0]),
        spec_private_key(Some(pkcs8), rsa) == spec_private_key(Some(pkcs8), other_rsa),
{
}

/// The first key of one parse.
pub fn first_key(parsed: Option<Vec<Vec<u8>>>) -> (first: Result<Option<Vec<u8>>, ConfigError>)
    ensures
        match first {
            Ok(Some(key)) => spec_first_key(sections(parsed)) == Ok::<Option<Seq<u8>>, ConfigError>(
                Some(key@),
            ),
            Ok(None) => spec_first_key(sections(parsed)) == Ok::<Option<Seq<u8>>, ConfigError>(None),
            Err(fault) => spec_first_key(sections(parsed)) == Err::<Option<Seq<u8>>, ConfigError>(
                fault,
            ),
        },
{
    match parsed {
        None => Err(ConfigError::PrivateKeyParseError),
        Some(keys) => {
            let mut keys = keys;
            if keys.len() > 0 {
                proof {
                    assert(keys.deep_view()[0] == keys@[0]@);
                }
                Ok(Some(keys.remove(0)))
            } else {
                proof {
                    assert(keys.deep_view().len() == 0);
                }
                Ok(None)
            }
        },
    }
}

/// The private key in a PEM text, DER-encoded: the first PKCS#8 key where the text holds one,
/// else its first RSA key. The text is read for RSA keys only where it holds no PKCS#8 key.
pub fn private_key(pem: &[u8]) -> (key: Result<Vec<u8>, ConfigError>)
    ensures
        match key {
            Ok(der) => spec_private_key(pem_pkcs8_keys(pem@), pem_rsa_keys(pem@)) == Ok::<
                Seq<u8>,
                ConfigError,
            >(der@),
            Err(fault) => spec_private_key(pem_pkcs8_keys(pem@), pem_rsa_keys(pem@)) == Err::<
                Seq<u8>,
                ConfigError,
            >(fault),
        },
{
    match first_key(pkcs8_private_keys(pem)) {
        Err(fault) => Err(fault),
        Ok(Some(der)) => Ok(der),
        Ok(None) => match first_key(rsa_private_keys(pem)) {
            Err(fault) => Err(fault),
            Ok(Some(der)) => Ok(der),
            Ok(None) => Err(ConfigError::PrivateKeyParseError),
        },
    }
}

} // verus!
