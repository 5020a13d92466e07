//! What can go wrong while a server's TLS settings are put together.
use vstd::prelude::*;

verus! {

/// A file could not be opened or read, as the caller that did the reading reports it.
#[derive(Debug, Clone, PartialEq, Eq)]
pub struct IoFailure {
    /// The error number of the operating system, where there is one.
    pub code: Option<i32>,
    /// The operating system's words for it.
    pub message: String,
}

/// The reasons for which no configuration is produced.
#[derive(Debug, Clone, PartialEq, Eq)]
pub enum ConfigError {
    /// A key, certificate or trust-anchor file could not be opened or read.
    IoFailure(IoFailure),
    /// No private-key bytes are at hand.
    EmptyKey,
    /// No certificate bytes are at hand.
    EmptyCert,
    /// The certificate bytes are no well-formed PEM.
    CertificateParseError,
    /// The key bytes hold neither a PKCS#8 nor an RSA private key.
    PrivateKeyParseError,
    /// The private key was read, but no supported signature scheme takes it.
    UnsupportedKeyAlgorithm,
    /// The trust anchors are malformed, or none of them is usable.
    TrustAnchorParseError,
}

impl ConfigError {
    /// The text that goes with each error.
    pub open spec fn spec_message(self) -> Seq<char> {
        match self {
            ConfigError::IoFailure(failure) => failure.message@,
            ConfigError::EmptyKey => "empty key"@,
            ConfigError::EmptyCert => "empty cert"@,
            ConfigError::CertificateParseError => "failed to parse tls certificates"@,
            ConfigError::PrivateKeyParseError => "failed to parse tls private keys"@,
            ConfigError::UnsupportedKeyAlgorithm => "invalid private key"@,
            ConfigError::TrustAnchorParseError => "failed to parse tls trust anchor"@,
        }
    }

    /// A one-line description for the operator.
    pub fn message(&self) -> (text: String)
        ensures
            text@ == self.spec_message(),
    {
        match self {
            ConfigError::IoFailure(failure) => failure.message.clone(),
            ConfigError::EmptyKey => "empty key".to_owned(),
            ConfigError::EmptyCert => "empty cert".to_owned(),
            ConfigError::CertificateParseError => "failed to parse tls certificates".to_owned(),
            ConfigError::PrivateKeyParseError => "failed to parse tls private keys".to_owned(),
            ConfigError::UnsupportedKeyAlgorithm => "invalid private key".to_owned(),
            ConfigError::TrustAnchorParseError => "failed to parse tls trust anchor".to_owned(),
        }
    }
}

} // verus!
