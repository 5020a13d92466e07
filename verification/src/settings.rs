//! The TLS settings of a server, as they come out of the builder.
use crate::client_auth::{ClientVerifier, VerifierView};
use crate::resolver::{CertResolver, ResolverView};
use vstd::prelude::*;

verus! {

/// The protocols offered to a client, the preferred one first: `h2`, then `http/1.1`, each as
/// the bytes of its name.
pub open spec fn spec_alpn_protocols() -> Seq<Seq<u8>> {
    seq![seq![0x68u8, 0x32u8], seq![0x68u8, 0x74u8, 0x74u8, 0x70u8, 0x2fu8, 0x31u8, 0x2eu8, 0x31u8]]
}

/// The protocols offered to a client, the preferred one first: `h2`, then `http/1.1`.
pub fn alpn_protocols() -> (protocols: Vec<Vec<u8>>)
    ensures
        protocols.deep_view() == spec_alpn_protocols(),
{
    let h2: Vec<u8> = vec![0x68u8, 0x32u8];
    let http11: Vec<u8> = vec![0x68u8, 0x74u8, 0x74u8, 0x70u8, 0x2fu8, 0x31u8, 0x2eu8, 0x31u8];
    let protocols: Vec<Vec<u8>> = vec![h2, http11];
    assert(protocols.deep_view() =~~= spec_alpn_protocols());
    protocols
}

/// What the settings of a server stand for.
pub struct ServerTlsConfigView {
    /// The protocols offered to a client, the preferred one first.
    pub alpn_protocols: Seq<Seq<u8>>,
    /// How the certificates of clients are dealt with.
    pub client_auth: VerifierView,
    /// The identities to serve.
    pub cert_resolver: ResolverView,
}

/// The TLS settings of a server. They are made whole or not at all, and are not changed once
/// they are made.
pub struct ServerTlsConfig {
    alpn_protocols: Vec<Vec<u8>>,
    client_auth: ClientVerifier,
    cert_resolver: CertResolver,
}

impl View for ServerTlsConfig {
    type V = ServerTlsConfigView;

    closed spec fn view(&self) -> ServerTlsConfigView {
        ServerTlsConfigView {
            alpn_protocols: self.alpn_protocols.deep_view(),
            client_auth: self.client_auth@,
            cert_resolver: self.cert_resolver@,
        }
    }
}

impl ServerTlsConfig {
    #[verifier::type_invariant]
    spec fn alpn_fixed(&self) -> bool {
        self.alpn_protocols.deep_view() == spec_alpn_protocols()
    }

    /// The settings with this verifier and this resolver. The protocols offered are not for
    /// the caller to choose.
    pub fn new(client_auth: ClientVerifier, cert_resolver: CertResolver) -> (config: Self)
        ensures
            config@ == (ServerTlsConfigView {
                alpn_protocols: spec_alpn_protocols(),
                client_auth: client_auth@,
                cert_resolver: cert_resolver@,
            }),
    {
        ServerTlsConfig { alpn_protocols: alpn_protocols(), client_auth, cert_resolver }
    }

    /// The protocols offered to a client, the preferred one first: in all settings `h2`, then
    /// `http/1.1`.
    pub fn alpn_protocols(&self) -> (protocols: &Vec<Vec<u8>>)
        ensures
            protocols.deep_view() == self@.alpn_protocols,
            protocols.deep_view() == spec_alpn_protocols(),
    {
        proof {
            use_type_invariant(self);
        }
        &self.alpn_protocols
    }

    /// How the certificates of clients are dealt with.
    pub fn client_auth(&self) -> (client_auth: &ClientVerifier)
        ensures
            client_auth@ == self@.client_auth,
    {
        &self.client_auth
    }

    /// The resolver that picks the identity for each handshake.
    pub fn cert_resolver(&self) -> (resolver: &CertResolver)
        ensures
            resolver@ == self@.cert_resolver,
    {
        &self.cert_resolver
    }
}

} // verus!
