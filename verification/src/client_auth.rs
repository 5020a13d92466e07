//! Whether clients are asked for a certificate, and the trust anchors that such a certificate
//! is held against.
use crate::error::ConfigError;
use crate::pem::{certs, pem_certificates};
use tokio_rustls::rustls::RootCertStore;
use vstd::prelude::*;

verus! {

/// `rustls::RootCertStore`: the trust anchors, as a `rustls` verifier takes them. Nothing
/// inside it is seen here.
#[verifier::external_type_specification]
#[verifier::external_body]
pub struct ExRootCertStore(RootCertStore);

/// The subjects of the trust anchors that `rustls::RootCertStore::add_parsable_certificates`
/// makes of DER-encoded certificates, in the order of the certificates. A certificate that it
/// cannot read gives none.
pub uninterp spec fn anchor_subjects(certs: Seq<Seq<u8>>) -> Seq<Seq<u8>>;

/// What a `rustls::RootCertStore` holds: the subjects of its roots, in their order.
pub uninterp spec fn store_subjects(store: RootCertStore) -> Seq<Seq<u8>>;

/// How many of the DER-encoded certificates `rustls::RootCertStore::add_parsable_certificates`
/// takes as trust anchors.
pub open spec fn usable_anchors(certs: Seq<Seq<u8>>) -> nat {
    anchor_subjects(certs).len()
}

/// Makes an empty `rustls::RootCertStore` and calls its `add_parsable_certificates` with
/// `certs`. Returns the store and the first number that the call returned: how many
/// certificates it added. Not proved: that the store then holds the roots of
/// `anchor_subjects` of the certificates and no others, that the number is how many these
/// are, and that it is no more than there are certificates.
#[verifier::external_body]
pub(crate) fn root_store(certs: &Vec<Vec<u8>>) -> (made: (RootCertStore, usize))
    ensures
        store_subjects(made.0) == anchor_subjects(certs.deep_view()),
        made.1 == anchor_subjects(certs.deep_view()).len(),
        made.1 <= certs.len(),
{
    let mut roots = RootCertStore::empty();
    let (added, _) = roots.add_parsable_certificates(certs);
    (roots, added)
}

/// Tls client authentication configuration.
pub enum TlsClientAuth {
    /// No client auth.
    Off,
    /// Allow any anonymous or authenticated client. Holds the trust anchors as PEM.
    Optional(Vec<u8>),
    /// Allow any authenticated client. Holds the trust anchors as PEM.
    Required(Vec<u8>),
}

/// What a set of trust anchors stands for.
pub struct TrustAnchorsView {
    /// The certificates of the PEM text, DER-encoded.
    pub certs: Seq<Seq<u8>>,
    /// How many of them are trust anchors.
    pub usable: nat,
}

/// The trust anchors of a PEM text. There is at least one.
pub struct TrustAnchors {
    roots: RootCertStore,
    usable: usize,
    certs: Ghost<Seq<Seq<u8>>>,
}

impl View for TrustAnchors {
    type V = TrustAnchorsView;

    closed spec fn view(&self) -> TrustAnchorsView {
        TrustAnchorsView { certs: self.certs@, usable: self.usable as nat }
    }
}

impl TrustAnchors {
    #[verifier::type_invariant]
    spec fn some_usable(&self) -> bool {
        &&& self.usable > 0
        &&& self.usable == usable_anchors(self.certs@)
        &&& store_subjects(self.roots) == anchor_subjects(self.certs@)
    }

    /// How many trust anchors there are: as many as there are usable certificates, and at
    /// least one.
    pub fn len(&self) -> (usable: usize)
        ensures
            usable == self@.usable,
            usable == usable_anchors(self@.certs),
            usable > 0,
    {
        proof {
            use_type_invariant(self);
        }
        self.usable
    }

    /// The trust anchors in the form in which a `rustls` verifier takes them: the store that
    /// was filled from the certificates of these anchors. It holds one root for each usable
    /// certificate, in the order of the certificates, and nothing else.
    pub fn roots(&self) -> (roots: &RootCertStore)
        ensures
            store_subjects(*roots) == anchor_subjects(self@.certs),
            store_subjects(*roots).len() == self@.usable,
    {
        proof {
            use_type_invariant(self);
        }
        &self.roots
    }
}

/// The trust anchors that a PEM text gives: its certificates, unless the text is rejected or
/// none of them is usable.
pub open spec fn spec_trust_anchor(pem: Seq<u8>) -> Result<TrustAnchorsView, ConfigError> {
    match pem_certificates(pem) {
        None => Err(ConfigError::TrustAnchorParseError),
        Some(certs) => if usable_anchors(certs) == 0 {
            Err(ConfigError::TrustAnchorParseError)
        } else {
            Ok(TrustAnchorsView { certs, usable: usable_anchors(certs) })
        },
    }
}

/// Reads the trust anchors of a PEM text. A text that is rejected, and one without a usable
/// certificate, give `TrustAnchorParseError`; so does a text without any byte.
pub fn read_trust_anchor(trust_anchor: &[u8]) -> (read: Result<TrustAnchors, ConfigError>)
    ensures
        match read {
            Ok(anchors) => spec_trust_anchor(trust_anchor@) == Ok::<TrustAnchorsView, ConfigError>(
                anchors@,
            ) && anchors@.usable > 0,
            Err(fault) => spec_trust_anchor(trust_anchor@) == Err::<TrustAnchorsView, ConfigError>(
                fault,
            ) && fault == ConfigError::TrustAnchorParseError,
        },
        trust_anchor@.len() == 0 ==> read.is_err(),
{
    match certs(trust_anchor) {
        None => Err(ConfigError::TrustAnchorParseError),
        Some(found) => {
            assert(found.deep_view().len() == found.len());
            let (roots, usable) = root_store(&found);
            if usable == 0 {
                Err(ConfigError::TrustAnchorParseError)
            } else {
                Ok(TrustAnchors { roots, usable, certs: Ghost(found.deep_view()) })
            }
        },
    }
}

/// What a verifier of client certificates stands for.
pub enum VerifierView {
    /// No client is asked for a certificate.
    NoClientAuth,
    /// A client may come without a certificate; one that it shows must lead to an anchor.
    AllowAnyAnonymousOrAuthenticatedClient(TrustAnchorsView),
    /// A client must show a certificate that leads to an anchor.
    AllowAnyAuthenticatedClient(TrustAnchorsView),
}

/// How the certificates of clients are dealt with, once the trust anchors are read.
pub enum ClientVerifier {
    /// No client is asked for a certificate.
    NoClientAuth,
    /// A client may come without a certificate; one that it shows must lead to an anchor.
    AllowAnyAnonymousOrAuthenticatedClient(TrustAnchors),
    /// A client must show a certificate that leads to an anchor.
    AllowAnyAuthenticatedClient(TrustAnchors),
}

impl View for ClientVerifier {
    type V = VerifierView;

    open spec fn view(&self) -> VerifierView {
        match *self {
            ClientVerifier::NoClientAuth => VerifierView::NoClientAuth,
            ClientVerifier::AllowAnyAnonymousOrAuthenticatedClient(anchors) => {
                VerifierView::AllowAnyAnonymousOrAuthenticatedClient(anchors@)
            },
            ClientVerifier::AllowAnyAuthenticatedClient(anchors) => {
                VerifierView::AllowAnyAuthenticatedClient(anchors@)
            },
        }
    }
}

impl ClientVerifier {
    /// Whether clients are asked for a certificate.
    pub fn offer_client_auth(&self) -> (offered: bool)
        ensures
            offered == !(self@ is NoClientAuth),
    {
        match self {
            ClientVerifier::NoClientAuth => false,
            _ => true,
        }
    }

    /// Whether a client without a certificate is turned away.
    pub fn client_auth_mandatory(&self) -> (mandatory: bool)
        ensures
            mandatory == (self@ is AllowAnyAuthenticatedClient),
    {
        match self {
            ClientVerifier::AllowAnyAuthenticatedClient(_) => true,
            _ => false,
        }
    }
}

impl TlsClientAuth {
    /// The verifier that a policy gives, or the reason for which it gives none.
    pub open spec fn spec_verifier(self) -> Result<VerifierView, ConfigError> {
        match self {
            TlsClientAuth::Off => Ok(VerifierView::NoClientAuth),
            TlsClientAuth::Optional(trust_anchor) => match spec_trust_anchor(trust_anchor@) {
                Ok(anchors) => Ok(VerifierView::AllowAnyAnonymousOrAuthenticatedClient(anchors)),
                Err(fault) => Err(fault),
            },
            TlsClientAuth::Required(trust_anchor) => match spec_trust_anchor(trust_anchor@) {
                Ok(anchors) => Ok(VerifierView::AllowAnyAuthenticatedClient(anchors)),
                Err(fault) => Err(fault),
            },
        }
    }

    /// The PEM text of the trust anchors, where the policy has any.
    pub open spec fn trust_anchor(self) -> Option<Seq<u8>> {
        match self {
            TlsClientAuth::Off => None,
            TlsClientAuth::Optional(trust_anchor) => Some(trust_anchor@),
            TlsClientAuth::Required(trust_anchor) => Some(trust_anchor@),
        }
    }

    /// Makes the verifier of a policy. Without client authentication there is nothing to
    /// read, and nothing fails. With it, the trust anchors are read, and a fault in them is
    /// `TrustAnchorParseError`: a text without any byte is such a fault.
    pub fn build_verifier(&self) -> (made: Result<ClientVerifier, ConfigError>)
        ensures
            match made {
                Ok(built) => self.spec_verifier() == Ok::<VerifierView, ConfigError>(built@),
                Err(fault) => self.spec_verifier() == Err::<VerifierView, ConfigError>(fault)
                    && fault == ConfigError::TrustAnchorParseError,
            },
            *self is Off ==> made.is_ok(),
            self.trust_anchor() == Some(Seq::<u8>::empty()) ==> made.is_err(),
    {
        match self {
            TlsClientAuth::Off => Ok(ClientVerifier::NoClientAuth),
            TlsClientAuth::Optional(trust_anchor) => {
                match read_trust_anchor(trust_anchor.as_slice()) {
                    Ok(anchors) => Ok(ClientVerifier::AllowAnyAnonymousOrAuthenticatedClient(anchors)),
                    Err(fault) => Err(fault),
                }
            },
            TlsClientAuth::Required(trust_anchor) => {
                match read_trust_anchor(trust_anchor.as_slice()) {
                    Ok(anchors) => Ok(ClientVerifier::AllowAnyAuthenticatedClient(anchors)),
                    Err(fault) => Err(fault),
                }
            },
        }
    }
}

} // verus!
