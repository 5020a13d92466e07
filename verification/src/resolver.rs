//! The choice of the identity to serve, made once for each handshake.
use crate::host_map::{lemma_find, lemma_find_same_names, spec_lookup, HostMap};
use crate::identity::{CertifiedIdentity, IdentityView};
use std::sync::Arc;
use vstd::prelude::*;

verus! {

/// The identities of a resolver's entries, each under its host name.
pub open spec fn identities(entries: Seq<(Seq<char>, Arc<CertifiedIdentity>)>) -> Seq<
    (Seq<char>, IdentityView),
> {
    Seq::new(entries.len(), |i: int| (entries[i].0, entries[i].1@))
}

/// The identity of a fallback, where there is one.
pub open spec fn fallback_identity(fallback: Option<Arc<CertifiedIdentity>>) -> Option<
    IdentityView,
> {
    match fallback {
        Some(identity) => Some(identity@),
        None => None,
    }
}

/// The host name that a client asks for, as a sequence of characters.
pub open spec fn spec_asked(server_name: Option<&str>) -> Option<Seq<char>> {
    match server_name {
        Some(name) => Some(name@),
        None => None,
    }
}

/// What a resolver chooses from.
pub struct ResolverView {
    /// The identity for a client that names no host, or one that is not registered.
    pub fallback: Option<IdentityView>,
    /// The identities of the registered host names.
    pub certified_keys: Seq<(Seq<char>, IdentityView)>,
}

impl ResolverView {
    /// The identity for a client that asks for `server_name`: the one registered under that
    /// name, else the fallback, else none.
    pub open spec fn resolve(self, server_name: Option<Seq<char>>) -> Option<IdentityView> {
        match server_name {
            Some(name) => match spec_lookup(self.certified_keys, name) {
                Some(identity) => Some(identity),
                None => self.fallback,
            },
            None => self.fallback,
        }
    }
}

/// Picks the identity to serve by the host name that a client asks for. It is not changed
/// once it is made.
pub struct CertResolver {
    fallback: Option<Arc<CertifiedIdentity>>,
    certified_keys: HostMap<Arc<CertifiedIdentity>>,
}

impl View for CertResolver {
    type V = ResolverView;

    open spec fn view(&self) -> ResolverView {
        ResolverView {
            fallback: fallback_identity(self.fallback()),
            certified_keys: identities(self.certified_keys()),
        }
    }
}

impl CertResolver {
    /// The identity held for a client that names no host, or one that is not registered.
    pub closed spec fn fallback(&self) -> Option<Arc<CertifiedIdentity>> {
        self.fallback
    }

    /// The identities held for the registered host names.
    pub closed spec fn certified_keys(&self) -> Seq<(Seq<char>, Arc<CertifiedIdentity>)> {
        self.certified_keys@
    }

    /// The identity held for a client that asks for `server_name`: the one registered under
    /// that name, else the fallback, else none.
    pub open spec fn held(&self, server_name: Option<Seq<char>>) -> Option<Arc<CertifiedIdentity>> {
        match server_name {
            Some(name) => match spec_lookup(self.certified_keys(), name) {
                Some(identity) => Some(identity),
                None => self.fallback(),
            },
            None => self.fallback(),
        }
    }

    /// A resolver with these identities.
    pub fn new(
        fallback: Option<Arc<CertifiedIdentity>>,
        certified_keys: HostMap<Arc<CertifiedIdentity>>,
    ) -> (resolver: Self)
        ensures
            resolver.fallback() == fallback,
            resolver.certified_keys() == certified_keys@,
    {
        CertResolver { fallback, certified_keys }
    }

    /// The identity for one handshake, by the host name that the client sent, if it sent one.
    /// A registered name gives its own identity, also where there is a fallback. No name, and
    /// a name that is not registered, give the fallback. Without a fallback they give nothing,
    /// which is no fault. What is handed out is the identity that the resolver holds, shared
    /// with it.
    pub fn resolve(&self, server_name: Option<&str>) -> (chosen: Option<Arc<CertifiedIdentity>>)
        ensures
            chosen == self.held(spec_asked(server_name)),
            match chosen {
                Some(identity) => self@.resolve(spec_asked(server_name)) == Some(identity@),
                None => self@.resolve(spec_asked(server_name)).is_none(),
            },
            self@.fallback.is_none() && (server_name matches Some(name) ==> spec_lookup(
                self@.certified_keys,
                name@,
            ).is_none()) ==> chosen.is_none(),
            server_name.is_none() ==> self@.resolve(spec_asked(server_name)) == self@.fallback,
            server_name matches Some(name) ==> self@.resolve(spec_asked(server_name)) == (
            if spec_lookup(self@.certified_keys, name@).is_some() {
                spec_lookup(self@.certified_keys, name@)
            } else {
                self@.fallback
            }),
    {
        if let Some(name) = server_name {
            proof {
                lemma_find_same_names(self.certified_keys@, self@.certified_keys, name@, 0);
                lemma_find(self.certified_keys@, name@, 0);
            }
            if let Some(identity) = self.certified_keys.get(name) {
                return Some(identity.clone());
            }
        }
        match &self.fallback {
            Some(identity) => Some(identity.clone()),
            None => None,
        }
    }
}

} // verus!
