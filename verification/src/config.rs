//! The builder of a server's TLS settings, and the settings that it makes.
use crate::client_auth::TlsClientAuth;
use crate::error::{ConfigError, IoFailure};
use crate::host_map::{
    distinct_names, lemma_find, lemma_find_is_first, lemma_find_same_names, lemma_insert_twice,
    lemma_lookup_after_insert, spec_insert, spec_lookup, HostMap,
};
use crate::identity::{CertifiedIdentity, IdentityView};
use crate::keycert::{lemma_file_read_once, Keycert, KeycertView};
use crate::resolver::{fallback_identity, identities, CertResolver, ResolverView};
use crate::settings::{spec_alpn_protocols, ServerTlsConfig, ServerTlsConfigView};
use std::path::PathBuf;
use std::sync::Arc;
use vstd::prelude::*;

verus! {

/// What the entries of a builder hold, each under its host name.
pub open spec fn keycert_views(entries: Seq<(Seq<char>, Keycert)>) -> Seq<(Seq<char>, KeycertView)> {
    Seq::new(entries.len(), |i: int| (entries[i].0, entries[i].1@))
}

/// What a fallback holds, where there is one.
pub open spec fn fallback_view(fallback: Option<Keycert>) -> Option<KeycertView> {
    match fallback {
        Some(keycert) => Some(keycert@),
        None => None,
    }
}

/// What a builder holds.
pub struct RustlsConfigView {
    /// The key material for a client that names no host, or one that is not registered.
    pub fallback: Option<KeycertView>,
    /// The key material of the registered host names, in the order in which the names came.
    pub keycerts: Seq<(Seq<char>, KeycertView)>,
    /// The policy for client certificates.
    pub client_auth: TlsClientAuth,
}

impl RustlsConfigView {
    /// Whether a signer is asked for before any fault that the bytes give: the key material
    /// that is dealt with first, the fallback or else that of the first host name, gives a
    /// candidate.
    pub open spec fn asks_signer(self) -> bool {
        match self.fallback {
            Some(keycert) => keycert.candidate().is_ok(),
            None => self.keycerts.len() > 0 && self.keycerts[0].1.candidate().is_ok(),
        }
    }

    /// The settings that the builder gives where every signer is made, or the first fault
    /// that the bytes give whatever becomes of the signers: the fallback is dealt with first,
    /// then the registered host names in their order, then the policy for client
    /// certificates.
    pub open spec fn server_config(self) -> Result<ServerTlsConfigView, ConfigError> {
        match candidate_fallback(self.fallback) {
            Err(fault) => Err(fault),
            Ok(fallback) => match candidates_all(self.keycerts) {
                Err(fault) => Err(fault),
                Ok(certified_keys) => match self.client_auth.spec_verifier() {
                    Err(fault) => Err(fault),
                    Ok(client_auth) => Ok(
                        ServerTlsConfigView {
                            alpn_protocols: spec_alpn_protocols(),
                            client_auth,
                            cert_resolver: ResolverView { fallback, certified_keys },
                        },
                    ),
                },
            },
        }
    }

    /// Whether the fallback has a file to be read.
    pub open spec fn fallback_wants(self) -> bool {
        self.fallback matches Some(keycert) && keycert.next_file().is_some()
    }

    /// The next file that has to be read before the settings can be made: those of the
    /// fallback first, then those of the host names in their order; for each, the file of the
    /// certificates before that of the key.
    pub open spec fn next_file(self) -> Option<PathBuf> {
        if self.fallback_wants() {
            self.fallback->0.next_file()
        } else {
            let at = first_wanting(self.keycerts, 0);
            if at < self.keycerts.len() {
                self.keycerts[at].1.next_file()
            } else {
                None
            }
        }
    }

    /// The builder after the contents of the file of `next_file` were handed over.
    pub open spec fn with_file_read(self, contents: Seq<u8>) -> RustlsConfigView {
        if self.fallback_wants() {
            RustlsConfigView {
                fallback: Some(self.fallback->0.with_file_read(contents)),
                ..self
            }
        } else {
            let at = first_wanting(self.keycerts, 0);
            if at < self.keycerts.len() {
                RustlsConfigView {
                    keycerts: self.keycerts.update(
                        at,
                        (self.keycerts[at].0, self.keycerts[at].1.with_file_read(contents)),
                    ),
                    ..self
                }
            } else {
                self
            }
        }
    }

    /// How many files have yet to be read before the settings can be made.
    pub open spec fn files_wanted(self) -> nat {
        (match self.fallback {
            Some(keycert) => keycert.files_wanted(),
            None => 0nat,
        }) + files_wanted_all(self.keycerts)
    }

    /// The builder after `keycert` was registered under `name`.
    pub open spec fn keycert(self, name: Seq<char>, keycert: KeycertView) -> RustlsConfigView {
        RustlsConfigView { keycerts: spec_insert(self.keycerts, name, keycert), ..self }
    }
}

/// The candidate of the fallback, where there is one, or its fault.
pub open spec fn candidate_fallback(fallback: Option<KeycertView>) -> Result<
    Option<IdentityView>,
    ConfigError,
> {
    match fallback {
        None => Ok(None),
        Some(keycert) => match keycert.candidate() {
            Ok(identity) => Ok(Some(identity)),
            Err(fault) => Err(fault),
        },
    }
}

/// The candidates of all entries, in their order, or the fault of the first entry that gives
/// none.
pub open spec fn candidates_all(keycerts: Seq<(Seq<char>, KeycertView)>) -> Result<
    Seq<(Seq<char>, IdentityView)>,
    ConfigError,
>
    decreases keycerts.len(),
{
    if keycerts.len() == 0 {
        Ok(Seq::empty())
    } else {
        match candidates_all(keycerts.drop_last()) {
            Err(fault) => Err(fault),
            Ok(done) => match keycerts.last().1.candidate() {
                Err(fault) => Err(fault),
                Ok(identity) => Ok(done.push((keycerts.last().0, identity))),
            },
        }
    }
}

/// Entries that all give a candidate give the list of these candidates, each under the name
/// of its entry.
pub proof fn lemma_candidates_all_ok(
    keycerts: Seq<(Seq<char>, KeycertView)>,
    certified: Seq<(Seq<char>, IdentityView)>,
)
    requires
        certified.len() == keycerts.len(),
        forall|i: int|
            0 <= i < keycerts.len() ==> certified[i].0 == keycerts[i].0
                && keycerts[i].1.candidate() == Ok::<IdentityView, ConfigError>(certified[i].1),
    ensures
        candidates_all(keycerts) == Ok::<Seq<(Seq<char>, IdentityView)>, ConfigError>(certified),
    decreases keycerts.len(),
{
    if keycerts.len() > 0 {
        lemma_candidates_all_ok(keycerts.drop_last(), certified.drop_last());
        assert(certified =~= certified.drop_last().push(certified.last()));
    } else {
        assert(certified =~= Seq::empty());
    }
}

/// A list of candidates comes from entries that all give one: it has a candidate for each
/// entry, under the entry's name.
pub proof fn lemma_candidates_all_each(
    keycerts: Seq<(Seq<char>, KeycertView)>,
    certified: Seq<(Seq<char>, IdentityView)>,
)
    requires
        candidates_all(keycerts) == Ok::<Seq<(Seq<char>, IdentityView)>, ConfigError>(certified),
    ensures
        certified.len() == keycerts.len(),
        forall|i: int|
            0 <= i < keycerts.len() ==> certified[i].0 == keycerts[i].0
                && keycerts[i].1.candidate() == Ok::<IdentityView, ConfigError>(certified[i].1),
    decreases keycerts.len(),
{
    if keycerts.len() > 0 {
        let done = candidates_all(keycerts.drop_last())->Ok_0;
        lemma_candidates_all_each(keycerts.drop_last(), done);
    }
}

/// Where an entry gives no candidate and all entries before it give one, its fault is the
/// fault of the whole list.
pub proof fn lemma_candidates_all_fault(
    keycerts: Seq<(Seq<char>, KeycertView)>,
    at: int,
    fault: ConfigError,
)
    requires
        0 <= at < keycerts.len(),
        keycerts[at].1.candidate() == Err::<IdentityView, ConfigError>(fault),
        forall|i: int| 0 <= i < at ==> keycerts[i].1.candidate().is_ok(),
    ensures
        candidates_all(keycerts) == Err::<Seq<(Seq<char>, IdentityView)>, ConfigError>(fault),
    decreases keycerts.len(),
{
    if at < keycerts.len() - 1 {
        lemma_candidates_all_fault(keycerts.drop_last(), at, fault);
    } else {
        let before = keycerts.drop_last();
        let certified = Seq::new(
            before.len(),
            |i: int| (before[i].0, before[i].1.candidate()->Ok_0),
        );
        lemma_candidates_all_ok(before, certified);
    }
}

/// The index of the first entry at or after `from` that has a file to be read, and the number
/// of entries where there is none.
pub open spec fn first_wanting(keycerts: Seq<(Seq<char>, KeycertView)>, from: int) -> int
    decreases keycerts.len() - from,
{
    if from < 0 || from >= keycerts.len() {
        keycerts.len() as int
    } else if keycerts[from].1.next_file().is_some() {
        from
    } else {
        first_wanting(keycerts, from + 1)
    }
}

/// What `first_wanting` returns lies between `from` and the number of entries, and is an
/// entry with a file to be read where it is an index.
pub proof fn lemma_first_wanting(keycerts: Seq<(Seq<char>, KeycertView)>, from: int)
    requires
        0 <= from <= keycerts.len(),
    ensures
        from <= first_wanting(keycerts, from) <= keycerts.len(),
        first_wanting(keycerts, from) < keycerts.len() ==> keycerts[first_wanting(
            keycerts,
            from,
        )].1.next_file().is_some(),
        forall|i: int|
            from <= i < first_wanting(keycerts, from) ==> keycerts[i].1.next_file().is_none(),
    decreases keycerts.len() - from,
{
    if from < keycerts.len() && keycerts[from].1.next_file().is_none() {
        lemma_first_wanting(keycerts, from + 1);
    }
}

/// How many files the entries have yet to be read.
pub open spec fn files_wanted_all(keycerts: Seq<(Seq<char>, KeycertView)>) -> nat
    decreases keycerts.len(),
{
    if keycerts.len() == 0 {
        0
    } else {
        files_wanted_all(keycerts.drop_last()) + keycerts.last().1.files_wanted()
    }
}

/// Entries of which none has a file to be read have no file left, and the other way round.
pub proof fn lemma_none_wanting(keycerts: Seq<(Seq<char>, KeycertView)>)
    ensures
        files_wanted_all(keycerts) == 0 <==> first_wanting(keycerts, 0) == keycerts.len(),
    decreases keycerts.len(),
{
    lemma_first_wanting(keycerts, 0);
    if keycerts.len() > 0 {
        let before = keycerts.drop_last();
        lemma_none_wanting(before);
        lemma_first_wanting(before, 0);
        lemma_file_read_once(keycerts.last().1, Seq::empty());
        if first_wanting(keycerts, 0) == keycerts.len() {
            assert forall|i: int| 0 <= i < before.len() implies before[i].1.next_file().is_none() by {
                assert(before[i] == keycerts[i]);
            }
        } else {
            let at = first_wanting(keycerts, 0);
            lemma_file_read_once(keycerts[at].1, Seq::empty());
            if at < before.len() {
                assert(before[at] == keycerts[at]);
            }
        }
    }
}

/// Where one entry is changed, the files left change by what that entry has left.
pub proof fn lemma_files_wanted_update(
    keycerts: Seq<(Seq<char>, KeycertView)>,
    at: int,
    name: Seq<char>,
    keycert: KeycertView,
)
    requires
        0 <= at < keycerts.len(),
    ensures
        files_wanted_all(keycerts.update(at, (name, keycert))) + keycerts[at].1.files_wanted()
            == files_wanted_all(keycerts) + keycert.files_wanted(),
    decreases keycerts.len(),
{
    let changed = keycerts.update(at, (name, keycert));
    if at == keycerts.len() - 1 {
        assert(changed.drop_last() =~= keycerts.drop_last());
    } else {
        lemma_files_wanted_update(keycerts.drop_last(), at, name, keycert);
        assert(changed.drop_last() =~= keycerts.drop_last().update(at, (name, keycert)));
    }
}

/// Reading the files that a builder asks for comes to an end: each hand-over of contents leaves
/// one file fewer, and no file is asked for exactly when none is left.
pub proof fn lemma_files_run_out(config: RustlsConfigView, contents: Seq<u8>)
    ensures
        config.next_file().is_none() <==> config.files_wanted() == 0,
        config.next_file().is_some() ==> config.with_file_read(contents).files_wanted()
            == config.files_wanted() - 1,
{
    lemma_none_wanting(config.keycerts);
    lemma_first_wanting(config.keycerts, 0);
    if let Some(keycert) = config.fallback {
        lemma_file_read_once(keycert, contents);
    }
    if !config.fallback_wants() {
        let at = first_wanting(config.keycerts, 0);
        if at < config.keycerts.len() {
            lemma_file_read_once(config.keycerts[at].1, contents);
            lemma_files_wanted_update(
                config.keycerts,
                at,
                config.keycerts[at].0,
                config.keycerts[at].1.with_file_read(contents),
            );
        }
    }
}

/// The resolver of the settings follows the registrations: under each registered host name it
/// holds the candidate of the key material registered there, and under no other name anything.
pub proof fn lemma_resolver_follows_registrations(config: RustlsConfigView, name: Seq<char>)
    requires
        config.server_config().is_ok(),
    ensures
        spec_lookup(config.server_config()->Ok_0.cert_resolver.certified_keys, name) == (
        match spec_lookup(config.keycerts, name) {
            Some(keycert) => Some(keycert.candidate()->Ok_0),
            None => None,
        }),
        spec_lookup(config.keycerts, name) matches Some(keycert) ==> keycert.candidate().is_ok(),
{
    let certified = config.server_config()->Ok_0.cert_resolver.certified_keys;
    lemma_candidates_all_each(config.keycerts, certified);
    lemma_find_same_names(config.keycerts, certified, name, 0);
    lemma_find(config.keycerts, name, 0);
}

/// Of two registrations under one name the second counts: the builder is the one that the
/// second alone would leave, and the settings made from it serve, under that name, the
/// candidate of the second key material.
pub proof fn lemma_last_registration_wins(
    config: RustlsConfigView,
    name: Seq<char>,
    first: KeycertView,
    second: KeycertView,
)
    ensures
        config.keycert(name, first).keycert(name, second) == config.keycert(name, second),
        config.keycert(name, first).keycert(name, second).server_config() matches Ok(made)
            ==> second.candidate().is_ok() && made.cert_resolver.resolve(Some(name)) == Some(
            second.candidate()->Ok_0,
        ),
{
    lemma_insert_twice(config.keycerts, name, first, second);
    let twice = config.keycert(name, first).keycert(name, second);
    lemma_lookup_after_insert(config.keycerts, name, second, name);
    if twice.server_config().is_ok() {
        lemma_resolver_follows_registrations(twice, name);
    }
}

/// Builder to set the configuration for the Tls server.
pub struct RustlsConfig {
    fallback: Option<Keycert>,
    keycerts: HostMap<Keycert>,
    client_auth: TlsClientAuth,
}

impl View for RustlsConfig {
    type V = RustlsConfigView;

    closed spec fn view(&self) -> RustlsConfigView {
        RustlsConfigView {
            fallback: fallback_view(self.fallback),
            keycerts: keycert_views(self.keycerts@),
            client_auth: self.client_auth,
        }
    }
}

impl RustlsConfig {
    /// Create new `RustlsConfig`: no host name is registered, and no client is asked for a
    /// certificate.
    pub fn new(fallback: Option<Keycert>) -> (config: Self)
        ensures
            config@ == (RustlsConfigView {
                fallback: fallback_view(fallback),
                keycerts: Seq::empty(),
                client_auth: TlsClientAuth::Off,
            }),
    {
        let config = RustlsConfig {
            fallback,
            keycerts: HostMap::new(),
            client_auth: TlsClientAuth::Off,
        };
        assert(config@.keycerts =~= Seq::empty());
        config
    }

    /// Sets the trust anchor for optional Tls client authentication from what reading its
    /// file gave. A failure to read is handed back, and no builder with it.
    ///
    /// Anonymous and authenticated clients will be accepted. If no trust anchor is provided by any
    /// of the `client_auth_` methods, then client authentication is disabled by default.
    pub fn client_auth_optional_path(self, outcome: Result<Vec<u8>, IoFailure>) -> (set: Result<
        Self,
        ConfigError,
    >)
        ensures
            match outcome {
                Ok(data) => set matches Ok(config) && config@ == (RustlsConfigView {
                    client_auth: TlsClientAuth::Optional(data),
                    ..self@
                }),
                Err(failure) => set matches Err(fault) && fault == ConfigError::IoFailure(failure),
            },
    {
        match outcome {
            Ok(data) => Ok(self.client_auth_optional(data)),
            Err(failure) => Err(ConfigError::IoFailure(failure)),
        }
    }

    /// Sets the trust anchor for optional Tls client authentication via bytes.
    ///
    /// Anonymous and authenticated clients will be accepted. If no trust anchor is provided by any
    /// of the `client_auth_` methods, then client authentication is disabled by default.
    pub fn client_auth_optional(self, trust_anchor: Vec<u8>) -> (config: Self)
        ensures
            config@ == (RustlsConfigView {
                client_auth: TlsClientAuth::Optional(trust_anchor),
                ..self@
            }),
    {
        let mut config = self;
        config.client_auth = TlsClientAuth::Optional(trust_anchor);
        config
    }

    /// Sets the trust anchor for required Tls client authentication from what reading its
    /// file gave. A failure to read is handed back, and no builder with it.
    ///
    /// Only authenticated clients will be accepted. If no trust anchor is provided by any of the
    /// `client_auth_` methods, then client authentication is disabled by default.
    pub fn client_auth_required_path(self, outcome: Result<Vec<u8>, IoFailure>) -> (set: Result<
        Self,
        ConfigError,
    >)
        ensures
            match outcome {
                Ok(data) => set matches Ok(config) && config@ == (RustlsConfigView {
                    client_auth: TlsClientAuth::Required(data),
                    ..self@
                }),
                Err(failure) => set matches Err(fault) && fault == ConfigError::IoFailure(failure),
            },
    {
        match outcome {
            Ok(data) => Ok(self.client_auth_required(data)),
            Err(failure) => Err(ConfigError::IoFailure(failure)),
        }
    }

    /// Sets the trust anchor for required Tls client authentication via bytes.
    ///
    /// Only authenticated clients will be accepted. If no trust anchor is provided by any of the
    /// `client_auth_` methods, then client authentication is disabled by default.
    pub fn client_auth_required(self, trust_anchor: Vec<u8>) -> (config: Self)
        ensures
            config@ == (RustlsConfigView {
                client_auth: TlsClientAuth::Required(trust_anchor),
                ..self@
            }),
    {
        let mut config = self;
        config.client_auth = TlsClientAuth::Required(trust_anchor);
        config
    }

    /// Makes the settings of the server. The fallback is made into an identity first, then
    /// the key material of each host name in the order in which the names came, then the
    /// policy for client certificates into a verifier. The first fault ends it, and leaves no
    /// settings at all. The protocols offered are always `h2` and `http/1.1`, in this order.
    ///
    /// Settings that are made are exactly those of [`RustlsConfigView::server_config`]. A
    /// fault is the one named there, or `UnsupportedKeyAlgorithm` from the making of a signer
    /// that came before it. Where no signer is asked for, the outcome is the one named there.
    /// Trust anchors without any byte always end in a fault.
    pub fn build_server_config(self) -> (made: Result<ServerTlsConfig, ConfigError>)
        ensures
            made matches Ok(config) ==> self@.server_config() == Ok::<
                ServerTlsConfigView,
                ConfigError,
            >(config@),
            made matches Err(fault) ==> self@.server_config() == Err::<
                ServerTlsConfigView,
                ConfigError,
            >(fault) || (fault == ConfigError::UnsupportedKeyAlgorithm && self@.asks_signer()),
            !self@.asks_signer() ==> made.is_ok() == self@.server_config().is_ok(),
            made matches Ok(config) ==> config@.alpn_protocols == spec_alpn_protocols(),
            self@.client_auth.trust_anchor() == Some(Seq::<u8>::empty()) ==> made.is_err(),
    {
        let fallback = match &self.fallback {
            Some(keycert) => match keycert.build_certified_key() {
                Ok(identity) => Some(Arc::new(identity)),
                Err(fault) => {
                    return Err(fault);
                },
            },
            None => None,
        };
        let ghost served = fallback_identity(fallback);
        let mut certified_keys: HostMap<Arc<CertifiedIdentity>> = HostMap::new();
        let n = self.keycerts.len();
        let mut at: usize = 0;
        while at < n
            invariant
                n == self.keycerts@.len(),
                at <= n,
                distinct_names(self.keycerts@),
                candidate_fallback(self@.fallback) == Ok::<Option<IdentityView>, ConfigError>(
                    served,
                ),
                certified_keys@.len() == at,
                forall|i: int|
                    0 <= i < at ==> certified_keys@[i].0 == self.keycerts@[i].0
                        && self.keycerts@[i].1@.candidate() == Ok::<IdentityView, ConfigError>(
                        certified_keys@[i].1@,
                    ),
            decreases n - at,
        {
            let name = self.keycerts.name_at(at).clone();
            match self.keycerts.value_at(at).build_certified_key() {
                Ok(identity) => {
                    proof {
                        lemma_find_is_first(certified_keys@, name@, at as int);
                    }
                    certified_keys.insert(name, Arc::new(identity));
                },
                Err(fault) => {
                    proof {
                        assert forall|i: int| 0 <= i < at implies (
                        #[trigger] self@.keycerts[i]).1.candidate().is_ok() by {
                            assert(certified_keys@[i].0 == self.keycerts@[i].0);
                        }
                        if self@.keycerts[at as int].1.candidate().is_err() {
                            lemma_candidates_all_fault(self@.keycerts, at as int, fault);
                        } else {
                            assert(self@.keycerts[0].1.candidate().is_ok());
                        }
                    }
                    return Err(fault);
                },
            }
            at = at + 1;
        }
        proof {
            lemma_candidates_all_ok(self@.keycerts, identities(certified_keys@));
        }
        let client_auth = match self.client_auth.build_verifier() {
            Ok(client_auth) => client_auth,
            Err(fault) => {
                return Err(fault);
            },
        };
        Ok(ServerTlsConfig::new(client_auth, CertResolver::new(fallback, certified_keys)))
    }

    /// The index of the first entry that has a file to be read.
    fn wanting(&self) -> (at: usize)
        ensures
            at == first_wanting(self@.keycerts, 0),
            at <= self.keycerts@.len(),
    {
        let n = self.keycerts.len();
        let mut at: usize = 0;
        while at < n
            invariant
                n == self.keycerts@.len(),
                at <= n,
                first_wanting(self@.keycerts, 0) == first_wanting(self@.keycerts, at as int),
            decreases n - at,
        {
            if self.keycerts.value_at(at).next_file().is_some() {
                return at;
            }
            at = at + 1;
        }
        at
    }

    /// The next file that has to be read before the settings can be made, if any is left.
    /// The caller reads it and hands the outcome to [`RustlsConfig::file_loaded`].
    pub fn next_file(&self) -> (path: Option<&PathBuf>)
        ensures
            match path {
                Some(file) => self@.next_file() == Some(*file),
                None => self@.next_file().is_none(),
            },
    {
        if let Some(keycert) = &self.fallback {
            if let Some(file) = keycert.next_file() {
                return Some(file);
            }
        }
        let at = self.wanting();
        if at < self.keycerts.len() {
            proof {
                lemma_first_wanting(self@.keycerts, 0);
            }
            self.keycerts.value_at(at).next_file()
        } else {
            None
        }
    }

    /// Takes what reading the file of [`RustlsConfig::next_file`] gave. The contents go to the
    /// key material that asked for the file, which does not ask for it again; a failure is
    /// handed back and changes nothing. Where no file is asked for, nothing changes.
    pub fn file_loaded(&mut self, outcome: Result<Vec<u8>, IoFailure>) -> (taken: Result<
        (),
        ConfigError,
    >)
        ensures
            old(self)@.next_file().is_none() ==> taken.is_ok() && final(self)@ == old(self)@,
            old(self)@.next_file().is_some() ==> match outcome {
                Ok(contents) => taken.is_ok() && final(self)@ == old(self)@.with_file_read(
                    contents@,
                ),
                Err(failure) => taken == Err::<(), ConfigError>(ConfigError::IoFailure(failure))
                    && final(self)@ == old(self)@,
            },
    {
        let fallback_wants = match &self.fallback {
            Some(keycert) => keycert.next_file().is_some(),
            None => false,
        };
        if fallback_wants {
            match &mut self.fallback {
                Some(keycert) => keycert.file_loaded(outcome),
                None => Ok(()),
            }
        } else {
            let at = self.wanting();
            proof {
                lemma_first_wanting(self@.keycerts, 0);
            }
            if at < self.keycerts.len() {
                let mut keycert = Keycert::new();
                self.keycerts.swap_value_at(at, &mut keycert);
                assert(keycert@ == old(self)@.keycerts[at as int].1);
                let taken = keycert.file_loaded(outcome);
                let ghost loaded = keycert@;
                self.keycerts.swap_value_at(at, &mut keycert);
                assert(self@.keycerts =~= old(self)@.keycerts.update(
                    at as int,
                    (old(self)@.keycerts[at as int].0, loaded),
                ));
                assert(loaded == old(self)@.keycerts[at as int].1 ==> self@.keycerts
                    =~= old(self)@.keycerts);
                taken
            } else {
                Ok(())
            }
        }
    }

    /// Add a new keycert to be used for the given SNI `name`. It takes the place of the one
    /// that was registered under that name before.
    pub fn keycert(self, name: String, keycert: Keycert) -> (config: Self)
        ensures
            config@ == self@.keycert(name@, keycert@),
            distinct_names(config@.keycerts),
    {
        let mut config = self;
        proof {
            lemma_find_same_names(config.keycerts@, config@.keycerts, name@, 0);
            lemma_find(config.keycerts@, name@, 0);
        }
        config.keycerts.insert(name, keycert);
        assert(config@.keycerts =~= spec_insert(self@.keycerts, name@, keycert@));
        config
    }
}

} // verus!
