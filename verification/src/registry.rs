//! The provider registry: which providers and models it knows, which of them
//! are configured and can be served, and how a request for a model is routed
//! to a provider factory with the options and credentials it needs.
//!
//! The factories themselves, and the provider instances they build, belong
//! to the caller: the registry decides which factory serves a model and
//! whether a cached instance can be reused, and records the instances built.

use vstd::prelude::*;

use crate::auth::{
    env_candidates_for_auth, lookup, method_view, pair_views, view_kind, ApiKeyAuth, AuthMethod,
    AuthMethodView, AuthRequest, AvailableProvider, KnownProvider, ResolvedAuth,
};
use crate::skill::{chars_le, chars_le_exec, lemma_chars_le_total, lemma_chars_le_trans};
use crate::text::to_chars;
use crate::auth::{auth_signature, lemma_chars_le_antisymmetric, signature_of};
use crate::text::{find_char, find_first, push_char, push_str, string_from_range};
use crate::model_spec::{
    copy_opt, copy_texts, opt_text, override_npm, texts, ModelSpec, ModelSpecView, ProviderSpec,
    ProviderSpecView,
};

verus! {

// ---------------------------------------------------------------------------
// Errors, hooks and registrations
// ---------------------------------------------------------------------------

/// Errors produced by the registry.
#[derive(Debug)]
pub enum RegistryError {
    /// No provider of that name, or no factory can serve it.
    ProviderNotFound(String),
    /// The provider has no model with that identifier.
    ModelNotFound { provider: String, model: String },
    /// The catalogue could not be fetched.
    Fetch(String),
    /// The catalogue could not be parsed.
    Parse(String),
    /// A provider factory failed.
    Factory(String),
    /// A required environment variable is not set.
    MissingEnvVar(String),
    /// No credentials could be resolved for the provider.
    MissingCredentials { provider: String, method: String },
}

/// Resolves credentials for a provider (a keyring, an OAuth refresh, ...).
pub trait AuthResolver {
    fn resolve(&self, request: &AuthRequest) -> Result<Option<ResolvedAuth>, RegistryError>;
}

/// Loads a provider's model metadata on demand.
pub trait ModelLoader {
    fn load_models(&self, provider_id: &str) -> Result<Vec<ModelSpec>, RegistryError>;
}

/// Where a registered provider's model metadata comes from.
pub enum ModelSource {
    /// The models.dev catalogue.
    ModelsDev,
    /// Statically declared models.
    Static(Vec<ModelSpec>),
    /// A loader called when the models are needed.
    Dynamic(Box<dyn ModelLoader>),
}

impl Default for ModelSource {
    fn default() -> (s: ModelSource)
        ensures
            s is ModelsDev,
    {
        ModelSource::ModelsDev
    }
}

/// Provider registration metadata.
pub struct ProviderRegistration {
    pub id: String,
    pub name: String,
    /// Compatible SDK package names for models routed through factories.
    pub npm_packages: Vec<String>,
    pub api_endpoint: Option<String>,
    /// Provider-specific options (JSON text), passed through to factories.
    pub factory_options: Option<String>,
    pub auth_method: AuthMethod,
    pub model_source: ModelSource,
}

/// Where a registration's models come from, as values.
pub enum SourceView {
    ModelsDev,
    Static(Seq<ModelSpecView>),
    Dynamic,
}

/// The views of a list of model entries.
pub open spec fn model_views(v: Seq<ModelSpec>) -> Seq<ModelSpecView> {
    v.map_values(|m: ModelSpec| m@)
}

pub open spec fn source_view(s: ModelSource) -> SourceView {
    match s {
        ModelSource::ModelsDev => SourceView::ModelsDev,
        ModelSource::Static(v) => SourceView::Static(model_views(v@)),
        ModelSource::Dynamic(_) => SourceView::Dynamic,
    }
}

/// What a registration says, as values.
pub struct RegistrationView {
    pub id: Seq<char>,
    pub name: Seq<char>,
    pub npm_packages: Seq<Seq<char>>,
    pub api_endpoint: Option<Seq<char>>,
    pub factory_options: Option<Seq<char>>,
    pub auth_method: AuthMethodView,
    pub source: SourceView,
}

impl View for ProviderRegistration {
    type V = RegistrationView;

    open spec fn view(&self) -> RegistrationView {
        RegistrationView {
            id: self.id@,
            name: self.name@,
            npm_packages: texts(self.npm_packages@),
            api_endpoint: opt_text(self.api_endpoint),
            factory_options: opt_text(self.factory_options),
            auth_method: method_view(self.auth_method),
            source: source_view(self.model_source),
        }
    }
}

impl ProviderRegistration {
    /// A registration with no packages, endpoint or options, the default
    /// auth method (an API key read from no variable) and the catalogue as
    /// model source.
    pub fn new(id: String, name: String) -> (r: ProviderRegistration)
        ensures
            r@ == (RegistrationView {
                id: id@,
                name: name@,
                npm_packages: Seq::empty(),
                api_endpoint: None,
                factory_options: None,
                auth_method: AuthMethodView::ApiKey(Seq::empty()),
                source: SourceView::ModelsDev,
            }),
    {
        let r = ProviderRegistration {
            id,
            name,
            npm_packages: Vec::new(),
            api_endpoint: None,
            factory_options: None,
            auth_method: AuthMethod::ApiKey(ApiKeyAuth { env: Vec::new() }),
            model_source: ModelSource::ModelsDev,
        };
        assert(texts(r.npm_packages@) =~= Seq::<Seq<char>>::empty());
        r
    }

    /// Stores provider-specific factory options, given as JSON text.
    pub fn set_factory_options(&mut self, options_json: String)
        ensures
            final(self)@ == (RegistrationView { factory_options: Some(options_json@), ..old(self)@ }),
    {
        self.factory_options = Some(options_json);
    }

    /// The provider-specific factory options (JSON text), if set.
    pub fn factory_options(&self) -> (r: Option<&String>)
        ensures
            match self@.factory_options {
                Some(t) => r matches Some(x) && x@ == t,
                None => r is None,
            },
    {
        match &self.factory_options {
            Some(t) => Some(t),
            None => None,
        }
    }
}

// ---------------------------------------------------------------------------
// Keyed sequences
// ---------------------------------------------------------------------------

/// The index of the first entry under key `k`.
pub open spec fn key_index<V>(s: Seq<(Seq<char>, V)>, k: Seq<char>) -> Option<int>
    decreases s.len(),
{
    if s.len() == 0 {
        None
    } else if s[0].0 == k {
        Some(0)
    } else {
        match key_index(s.drop_first(), k) {
            Some(i) => Some(i + 1),
            None => None,
        }
    }
}

/// The value of the first entry under key `k`.
pub open spec fn lookup_key<V>(s: Seq<(Seq<char>, V)>, k: Seq<char>) -> Option<V> {
    match key_index(s, k) {
        Some(i) => Some(s[i].1),
        None => None,
    }
}

/// The keys, in order.
pub open spec fn keys_of<V>(s: Seq<(Seq<char>, V)>) -> Seq<Seq<char>> {
    s.map_values(|e: (Seq<char>, V)| e.0)
}

pub open spec fn has_key<V>(s: Seq<(Seq<char>, V)>, k: Seq<char>) -> bool {
    key_index(s, k) is Some
}

/// `i` is the first index under `k`.
pub open spec fn first_at<V>(s: Seq<(Seq<char>, V)>, k: Seq<char>, i: int) -> bool {
    &&& 0 <= i < s.len()
    &&& s[i].0 == k
    &&& forall|j: int| 0 <= j < i ==> (#[trigger] s[j]).0 != k
}

pub open spec fn absent<V>(s: Seq<(Seq<char>, V)>, k: Seq<char>) -> bool {
    forall|j: int| 0 <= j < s.len() ==> (#[trigger] s[j]).0 != k
}

pub proof fn lemma_key_index<V>(s: Seq<(Seq<char>, V)>, k: Seq<char>)
    ensures
        match key_index(s, k) {
            Some(i) => first_at(s, k, i),
            None => absent(s, k),
        },
    decreases s.len(),
{
    if s.len() > 0 && s[0].0 != k {
        lemma_key_index(s.drop_first(), k);
        match key_index(s.drop_first(), k) {
            Some(i) => {
                assert forall|j: int| 0 <= j < i + 1 implies (#[trigger] s[j]).0 != k by {
                    if j > 0 {
                        assert(s[j] == s.drop_first()[j - 1]);
                    }
                }
            },
            None => {
                assert forall|j: int| 0 <= j < s.len() implies (#[trigger] s[j]).0 != k by {
                    if j > 0 {
                        assert(s[j] == s.drop_first()[j - 1]);
                    }
                }
            },
        }
    }
}

/// The first index under a key is the one `key_index` names; no index
/// means the key is absent.
pub proof fn lemma_key_index_is<V>(s: Seq<(Seq<char>, V)>, k: Seq<char>, i: Option<int>)
    requires
        match i {
            Some(x) => first_at(s, k, x),
            None => absent(s, k),
        },
    ensures
        key_index(s, k) == i,
{
    lemma_key_index(s, k);
    match (key_index(s, k), i) {
        (Some(a), Some(b)) => {
            if a < b {
                assert(s[a].0 != k);
            } else if b < a {
                assert(s[b].0 != k);
            }
        },
        (Some(a), None) => {
            assert(s[a].0 != k);
        },
        (None, Some(b)) => {
            assert(s[b].0 != k);
        },
        (None, None) => {},
    }
}

/// The first entry of `v` under key `k`.
pub(crate) fn position<V>(v: &Vec<(String, V)>, k: &String) -> (r: Option<usize>)
    ensures
        match r {
            Some(i) => i < v.len() && v@[i as int].0@ == k@ && forall|j: int|
                0 <= j < i ==> (#[trigger] v@[j]).0@ != k@,
            None => forall|j: int| 0 <= j < v.len() ==> (#[trigger] v@[j]).0@ != k@,
        },
{
    for i in 0..v.len()
        invariant
            forall|j: int| 0 <= j < i ==> (#[trigger] v@[j]).0@ != k@,
    {
        if v[i].0 == *k {
            return Some(i);
        }
    }
    None
}

// ---------------------------------------------------------------------------
// The registry
// ---------------------------------------------------------------------------

/// Central provider/model registry.
pub struct Registry {
    /// Factories under their SDK package name, each with the instances built
    /// by it: provider id and the signature of the options used.
    factories: Vec<(String, Vec<(String, String)>)>,
    /// Providers registered directly (no package routing), each with the
    /// signature of the options of its instance, once one was built.
    providers: Vec<(String, Option<String>)>,
    /// Registered provider metadata.
    registrations: Vec<ProviderRegistration>,
    /// The models.dev catalogue, once loaded: provider entries under their ids.
    spec: Option<Vec<(String, ProviderSpec)>>,
    auth_resolver: Option<Box<dyn AuthResolver>>,
}

/// What the registry holds, as values.
pub struct RegistryView {
    pub factories: Seq<(Seq<char>, Seq<(Seq<char>, Seq<char>)>)>,
    pub providers: Seq<(Seq<char>, Option<Seq<char>>)>,
    pub registrations: Seq<(Seq<char>, RegistrationView)>,
    pub spec: Option<Seq<(Seq<char>, ProviderSpecView)>>,
    pub has_resolver: bool,
}

pub open spec fn factory_views(v: Seq<(String, Vec<(String, String)>)>) -> Seq<(Seq<char>, Seq<(Seq<char>, Seq<char>)>)> {
    v.map_values(|e: (String, Vec<(String, String)>)| (e.0@, pair_views(e.1@)))
}

pub open spec fn provider_views(v: Seq<(String, Option<String>)>) -> Seq<(Seq<char>, Option<Seq<char>>)> {
    v.map_values(|e: (String, Option<String>)| (e.0@, opt_text(e.1)))
}

pub open spec fn registration_views(v: Seq<ProviderRegistration>) -> Seq<(Seq<char>, RegistrationView)> {
    v.map_values(|r: ProviderRegistration| (r@.id, r@))
}

pub open spec fn catalogue_views(v: Seq<(String, ProviderSpec)>) -> Seq<(Seq<char>, ProviderSpecView)> {
    v.map_values(|e: (String, ProviderSpec)| (e.0@, e.1@))
}

impl View for Registry {
    type V = RegistryView;

    closed spec fn view(&self) -> RegistryView {
        RegistryView {
            factories: factory_views(self.factories@),
            providers: provider_views(self.providers@),
            registrations: registration_views(self.registrations@),
            spec: match self.spec {
                Some(v) => Some(catalogue_views(v@)),
                None => None,
            },
            has_resolver: self.auth_resolver is Some,
        }
    }
}

/// The registration of a provider.
pub open spec fn registration(r: RegistryView, id: Seq<char>) -> Option<RegistrationView> {
    lookup_key(r.registrations, id)
}

/// The catalogue entry of a provider, if a catalogue is loaded.
pub open spec fn catalogue(r: RegistryView, id: Seq<char>) -> Option<ProviderSpecView> {
    match r.spec {
        Some(s) => lookup_key(s, id),
        None => None,
    }
}

/// A provider registered directly.
pub open spec fn is_direct(r: RegistryView, id: Seq<char>) -> bool {
    has_key(r.providers, id)
}

/// A factory is registered for the package.
pub open spec fn has_factory(r: RegistryView, npm: Seq<char>) -> bool {
    has_key(r.factories, npm)
}

/// The registry knows the provider: registered directly, by metadata, or in
/// the catalogue.
pub open spec fn is_known(r: RegistryView, id: Seq<char>) -> bool {
    is_direct(r, id) || registration(r, id) is Some || catalogue(r, id) is Some
}

/// Some factory (or the direct registration) can serve the provider.
pub open spec fn compatible(r: RegistryView, id: Seq<char>) -> bool {
    ||| is_direct(r, id)
    ||| (registration(r, id) matches Some(reg) && exists|i: int|
        0 <= i < reg.npm_packages.len() && has_factory(r, #[trigger] reg.npm_packages[i]))
    ||| (catalogue(r, id) matches Some(ps) && ((ps.npm matches Some(n) && has_factory(r, n))
        || exists|i: int|
        0 <= i < ps.models.len() && (override_npm(#[trigger] ps.models[i].1) matches Some(n) && has_factory(r, n))))
}

/// The provider's display name and auth method, for a known provider.
pub open spec fn auth_request_of(r: RegistryView, id: Seq<char>) -> Option<(Seq<char>, AuthMethodView)> {
    if !is_known(r, id) {
        None
    } else {
        let name = match registration(r, id) {
            Some(reg) => reg.name,
            None => match catalogue(r, id) {
                Some(ps) => ps.name,
                None => id,
            },
        };
        let method = match registration(r, id) {
            Some(reg) => reg.auth_method,
            None => AuthMethodView::ApiKey(
                match catalogue(r, id) {
                    Some(ps) => ps.env,
                    None => Seq::empty(),
                },
            ),
        };
        Some((name, method))
    }
}

/// An entry under `k`: the first one replaced, else one added at the end.
pub open spec fn put_key<V>(s: Seq<(Seq<char>, V)>, k: Seq<char>, v: V) -> Seq<(Seq<char>, V)> {
    match key_index(s, k) {
        Some(i) => s.update(i, (k, v)),
        None => s.push((k, v)),
    }
}

/// The registry with a registration put under its id.
pub open spec fn with_registration(r: RegistryView, reg: RegistrationView) -> RegistryView {
    RegistryView { registrations: put_key(r.registrations, reg.id, reg), ..r }
}

/// The registry with a fresh factory (no instances) put under its package.
pub open spec fn with_factory(r: RegistryView, npm: Seq<char>) -> RegistryView {
    RegistryView { factories: put_key(r.factories, npm, Seq::empty()), ..r }
}

/// The registry with a fresh direct provider (no instance) put under its name.
pub open spec fn with_provider(r: RegistryView, name: Seq<char>) -> RegistryView {
    RegistryView { providers: put_key(r.providers, name, None), ..r }
}

/// The environment variables a method reads.
pub open spec fn candidates_of(m: AuthMethodView) -> Seq<Seq<char>> {
    match m {
        AuthMethodView::ApiKey(env) => env,
        AuthMethodView::OAuthPkce(_) => Seq::empty(),
    }
}

impl Registry {
    /// An empty registry, with no auth resolver.
    pub fn new() -> (r: Registry)
        ensures
            r@.factories.len() == 0,
            r@.providers.len() == 0,
            r@.registrations.len() == 0,
            r@.spec is None,
            !r@.has_resolver,
    {
        let r = Registry {
            factories: Vec::new(),
            providers: Vec::new(),
            registrations: Vec::new(),
            spec: None,
            auth_resolver: None,
        };
        assert(factory_views(r.factories@).len() == 0);
        r
    }

    /// Sets the credential resolver used for provider auth resolution.
    pub fn set_auth_resolver(&mut self, resolver: Box<dyn AuthResolver>)
        ensures
            final(self)@ == (RegistryView { has_resolver: true, ..old(self)@ }),
    {
        self.auth_resolver = Some(resolver);
    }

    fn registration_pos(&self, id: &String) -> (r: Option<usize>)
        ensures
            r == (match key_index(self@.registrations, id@) {
                Some(i) => Some(i as usize),
                None => None::<usize>,
            }),
            r matches Some(i) ==> i < self.registrations.len(),
    {
        let mut i: usize = 0;
        while i < self.registrations.len()
            invariant
                i <= self.registrations.len(),
                forall|j: int| 0 <= j < i ==> (#[trigger] self.registrations@[j]).id@ != id@,
            decreases self.registrations.len() - i,
        {
            if self.registrations[i].id == *id {
                proof {
                    lemma_key_index_is(self@.registrations, id@, Some(i as int));
                }
                return Some(i);
            }
            i = i + 1;
        }
        proof {
            lemma_key_index_is(self@.registrations, id@, None);
        }
        None
    }

    fn factory_pos(&self, npm: &String) -> (r: Option<usize>)
        ensures
            r == (match key_index(self@.factories, npm@) {
                Some(i) => Some(i as usize),
                None => None::<usize>,
            }),
            r matches Some(i) ==> i < self.factories.len(),
    {
        let r = position(&self.factories, npm);
        proof {
            match r {
                Some(i) => lemma_key_index_is(self@.factories, npm@, Some(i as int)),
                None => lemma_key_index_is(self@.factories, npm@, None),
            }
        }
        r
    }

    fn provider_pos(&self, name: &String) -> (r: Option<usize>)
        ensures
            r == (match key_index(self@.providers, name@) {
                Some(i) => Some(i as usize),
                None => None::<usize>,
            }),
            r matches Some(i) ==> i < self.providers.len(),
    {
        let r = position(&self.providers, name);
        proof {
            match r {
                Some(i) => lemma_key_index_is(self@.providers, name@, Some(i as int)),
                None => lemma_key_index_is(self@.providers, name@, None),
            }
        }
        r
    }

    /// The catalogue entry of a provider.
    fn catalogue_entry(&self, id: &String) -> (r: Option<&ProviderSpec>)
        ensures
            match catalogue(self@, id@) {
                Some(ps) => r matches Some(x) && x@ == ps,
                None => r is None,
            },
    {
        match &self.spec {
            Some(v) => {
                let p = position(v, id);
                proof {
                    match p {
                        Some(i) => lemma_key_index_is(catalogue_views(v@), id@, Some(i as int)),
                        None => lemma_key_index_is(catalogue_views(v@), id@, None),
                    }
                }
                match p {
                    Some(i) => Some(&v[i].1),
                    None => None,
                }
            },
            None => None,
        }
    }

    /// Registers provider metadata, replacing any registration of the same id.
    pub fn add_registration(&mut self, registration: ProviderRegistration)
        ensures
            final(self)@ == with_registration(old(self)@, registration@),
    {
        let p = self.registration_pos(&registration.id);
        proof {
            lemma_key_index(old(self)@.registrations, registration@.id);
        }
        let ghost entry = (registration@.id, registration@);
        match p {
            Some(i) => {
                self.registrations.set(i, registration);
                assert(registration_views(self.registrations@) =~= registration_views(old(self).registrations@).update(i as int, entry));
            },
            None => {
                self.registrations.push(registration);
                assert(registration_views(self.registrations@) =~= registration_views(old(self).registrations@).push(entry));
            },
        }
    }

    /// Registers a factory for an SDK package name, replacing any factory
    /// (and its instances) under that name.
    pub fn add_factory(&mut self, npm: String)
        ensures
            final(self)@ == with_factory(old(self)@, npm@),
    {
        let p = self.factory_pos(&npm);
        proof {
            lemma_key_index(old(self)@.factories, npm@);
        }
        let ghost entry = (npm@, Seq::<(Seq<char>, Seq<char>)>::empty());
        let fresh: Vec<(String, String)> = Vec::new();
        assert(pair_views(fresh@) =~= Seq::<(Seq<char>, Seq<char>)>::empty());
        match p {
            Some(i) => {
                self.factories.set(i, (npm, fresh));
                assert(factory_views(self.factories@) =~= factory_views(old(self).factories@).update(i as int, entry));
            },
            None => {
                self.factories.push((npm, fresh));
                assert(factory_views(self.factories@) =~= factory_views(old(self).factories@).push(entry));
            },
        }
    }

    /// Registers a provider directly (no package routing), replacing any
    /// direct provider (and its instance) under that name.
    pub fn add_provider(&mut self, name: String)
        ensures
            final(self)@ == with_provider(old(self)@, name@),
    {
        let p = self.provider_pos(&name);
        proof {
            lemma_key_index(old(self)@.providers, name@);
        }
        let ghost entry = (name@, None::<Seq<char>>);
        match p {
            Some(i) => {
                self.providers.set(i, (name, None));
                assert(provider_views(self.providers@) =~= provider_views(old(self).providers@).update(i as int, entry));
            },
            None => {
                self.providers.push((name, None));
                assert(provider_views(self.providers@) =~= provider_views(old(self).providers@).push(entry));
            },
        }
    }

    /// Loads the models.dev catalogue: provider entries under their ids.
    pub fn load_spec(&mut self, spec: Vec<(String, ProviderSpec)>)
        ensures
            final(self)@ == (RegistryView { spec: Some(catalogue_views(spec@)), ..old(self)@ }),
    {
        self.spec = Some(spec);
    }

    /// The catalogue entry of a provider.
    pub fn provider_spec(&self, provider: &str) -> (r: Option<ProviderSpec>)
        ensures
            match catalogue(self@, provider@) {
                Some(ps) => r matches Some(x) && x@ == ps,
                None => r is None,
            },
    {
        let id = provider.to_owned();
        match self.catalogue_entry(&id) {
            Some(ps) => Some(ps.copy()),
            None => None,
        }
    }

    /// The provider ids of the catalogue, in its order (none before it is loaded).
    pub fn spec_providers(&self) -> (r: Vec<String>)
        ensures
            texts(r@) == match self@.spec {
                Some(s) => keys_of(s),
                None => Seq::empty(),
            },
    {
        let mut out: Vec<String> = Vec::new();
        match &self.spec {
            Some(v) => {
                for i in 0..v.len()
                    invariant
                        out.len() == i,
                        forall|j: int| 0 <= j < i ==> (#[trigger] out@[j])@ == v@[j].0@,
                {
                    out.push(v[i].0.clone());
                }
                assert(texts(out@) =~= keys_of(catalogue_views(v@)));
            },
            None => {
                assert(texts(out@) =~= Seq::<Seq<char>>::empty());
            },
        }
        out
    }
}

// ---------------------------------------------------------------------------
// Credentials
// ---------------------------------------------------------------------------

/// A resolved payload, as values: the method and its key/value pairs.
pub open spec fn auth_view(a: ResolvedAuth) -> (Seq<char>, Seq<(Seq<char>, Seq<char>)>) {
    (a.method@, pair_views(a.values@))
}

pub open spec fn opt_auth_view(a: Option<ResolvedAuth>) -> Option<(Seq<char>, Seq<(Seq<char>, Seq<char>)>)> {
    match a {
        Some(x) => Some(auth_view(x)),
        None => None,
    }
}

/// A resolved payload, as values.
pub type AuthValues = (Seq<char>, Seq<(Seq<char>, Seq<char>)>);

/// The credentials resolution yields when the resolver supplied `answer`
/// (`None`: it supplied nothing, or there is no resolver).
pub open spec fn credentials(
    method: AuthMethodView,
    candidates: Seq<Seq<char>>,
    env: Seq<(Seq<char>, Seq<char>)>,
    answer: Option<AuthValues>,
) -> Option<AuthValues> {
    match answer {
        Some(a) => Some(a),
        None => env_auth(method, candidates, env),
    }
}

/// The value of the first candidate variable set in the environment.
pub open spec fn first_set(candidates: Seq<Seq<char>>, env: Seq<(Seq<char>, Seq<char>)>) -> Option<Seq<char>>
    decreases candidates.len(),
{
    if candidates.len() == 0 {
        None
    } else {
        match lookup(env, candidates[0]) {
            Some(v) => Some(v),
            None => first_set(candidates.drop_first(), env),
        }
    }
}

/// What the environment yields for a method: an API key method with no
/// candidate variables needs no key (an empty payload); with candidates, the
/// first one set gives the key. OAuth is never resolved from the environment.
pub open spec fn env_auth(
    method: AuthMethodView,
    candidates: Seq<Seq<char>>,
    env: Seq<(Seq<char>, Seq<char>)>,
) -> Option<(Seq<char>, Seq<(Seq<char>, Seq<char>)>)> {
    match method {
        AuthMethodView::ApiKey(_) => if candidates.len() == 0 {
            Some(("api_key"@, Seq::empty()))
        } else {
            match first_set(candidates, env) {
                Some(v) => Some(("api_key"@, seq![("api_key"@, v)])),
                None => None,
            }
        },
        AuthMethodView::OAuthPkce(_) => None,
    }
}

/// The environment's answer for a list of candidate variables: when some
/// candidate is set, the value of the lowest-index one that is set (later
/// candidates are looked at when earlier ones are unset); when none is set,
/// nothing.
pub proof fn law_first_set_candidate_wins(candidates: Seq<Seq<char>>, env: Seq<(Seq<char>, Seq<char>)>)
    ensures
        forall|i: int|
            0 <= i < candidates.len() && (#[trigger] lookup(env, candidates[i])) is Some && (forall|j: int|
                0 <= j < i ==> lookup(env, candidates[j]) is None) ==> first_set(candidates, env) == lookup(
                env,
                candidates[i],
            ),
        (forall|j: int| 0 <= j < candidates.len() ==> lookup(env, #[trigger] candidates[j]) is None) ==> first_set(
            candidates,
            env,
        ) is None,
    decreases candidates.len(),
{
    if candidates.len() > 0 {
        let d = candidates.drop_first();
        law_first_set_candidate_wins(d, env);
        assert forall|i: int|
            0 <= i < candidates.len() && (#[trigger] lookup(env, candidates[i])) is Some && (forall|j: int|
                0 <= j < i ==> lookup(env, candidates[j]) is None) implies first_set(candidates, env) == lookup(
            env,
            candidates[i],
        ) by {
            if i > 0 {
                assert(lookup(env, candidates[0]) is None);
                assert(d[i - 1] == candidates[i]);
                assert forall|j: int| 0 <= j < i - 1 implies lookup(env, d[j]) is None by {
                    assert(d[j] == candidates[j + 1]);
                }
                assert(lookup(env, d[i - 1]) is Some);
            }
        }
        if forall|j: int| 0 <= j < candidates.len() ==> lookup(env, #[trigger] candidates[j]) is None {
            assert(lookup(env, candidates[0]) is None);
            assert forall|j: int| 0 <= j < d.len() implies lookup(env, #[trigger] d[j]) is None by {
                assert(d[j] == candidates[j + 1]);
            }
        }
    }
}

/// An API-key method with candidate variables resolves from the environment
/// exactly when one of them is set, to the value of the first one set.
pub proof fn law_env_api_key_is_first_set_candidate(
    cfg: Seq<Seq<char>>,
    candidates: Seq<Seq<char>>,
    env: Seq<(Seq<char>, Seq<char>)>,
    i: int,
)
    requires
        0 <= i < candidates.len(),
        lookup(env, candidates[i]) is Some,
        forall|j: int| 0 <= j < i ==> lookup(env, #[trigger] candidates[j]) is None,
    ensures
        env_auth(AuthMethodView::ApiKey(cfg), candidates, env) == Some(
            ("api_key"@, seq![("api_key"@, lookup(env, candidates[i])->0)]),
        ),
{
    law_first_set_candidate_wins(candidates, env);
}

/// The value of the first candidate set in `env` (process environment pairs).
fn first_set_exec(candidates: &Vec<String>, env: &Vec<(String, String)>) -> (r: Option<String>)
    ensures
        opt_text(r) == first_set(texts(candidates@), pair_views(env@)),
{
    let ghost c = texts(candidates@);
    let ghost e = pair_views(env@);
    assert(c.skip(0) == c);
    for i in 0..candidates.len()
        invariant
            c == texts(candidates@),
            e == pair_views(env@),
            first_set(c, e) == first_set(c.skip(i as int), e),
    {
        assert(c.skip(i as int).drop_first() == c.skip(i + 1));
        assert(c.skip(i as int)[0] == candidates@[i as int]@);
        match lookup_env(env, &candidates[i]) {
            Some(v) => {
                return Some(v);
            },
            None => {},
        }
    }
    assert(c.skip(candidates.len() as int) =~= Seq::<Seq<char>>::empty());
    None
}

/// The value of variable `name` in `env` (its first occurrence).
fn lookup_env(env: &Vec<(String, String)>, name: &String) -> (r: Option<String>)
    ensures
        opt_text(r) == lookup(pair_views(env@), name@),
{
    let ghost e = pair_views(env@);
    assert(e.skip(0) == e);
    for i in 0..env.len()
        invariant
            e == pair_views(env@),
            lookup(e, name@) == lookup(e.skip(i as int), name@),
    {
        assert(e.skip(i as int).drop_first() == e.skip(i + 1));
        if env[i].0 == *name {
            return Some(env[i].1.clone());
        }
    }
    assert(e.skip(env.len() as int) =~= Seq::<(Seq<char>, Seq<char>)>::empty());
    None
}

/// Resolution given the resolver's answer: a payload it found is used;
/// otherwise (no payload, or a failure) the environment decides.
pub fn resolve_with(
    answer: Result<Option<ResolvedAuth>, RegistryError>,
    auth_method: &AuthMethod,
    env_candidates: &Vec<String>,
    env: &Vec<(String, String)>,
) -> (r: Option<ResolvedAuth>)
    ensures
        opt_auth_view(r) == match answer {
            Ok(Some(a)) => Some(auth_view(a)),
            _ => env_auth(method_view(*auth_method), texts(env_candidates@), pair_views(env@)),
        },
{
    match answer {
        Ok(Some(a)) => return Some(a),
        _ => {},
    }
    match auth_method {
        AuthMethod::ApiKey(_) => {
            if env_candidates.len() == 0 {
                let r = ResolvedAuth { method: "api_key".to_owned(), values: Vec::new() };
                assert(pair_views(r.values@) =~= Seq::<(Seq<char>, Seq<char>)>::empty());
                Some(r)
            } else {
                match first_set_exec(env_candidates, env) {
                    Some(v) => Some(ResolvedAuth::api_key(v)),
                    None => None,
                }
            }
        },
        AuthMethod::OAuthPkce(_) => None,
    }
}

impl Registry {
    /// Resolves credentials: through the resolver if one is set, else (or
    /// when it yields none) from the environment.
    ///
    /// The resolver's answer is not stated: with a resolver, the result is
    /// either what the environment gives or some payload.
    fn resolve_auth_optional(
        &self,
        provider_id: &String,
        provider_name: &String,
        auth_method: &AuthMethod,
        env_candidates: Vec<String>,
        env: &Vec<(String, String)>,
    ) -> (r: Option<ResolvedAuth>)
        ensures
            !self@.has_resolver ==> opt_auth_view(r) == env_auth(method_view(*auth_method), texts(env_candidates@), pair_views(env@)),
            opt_auth_view(r) == env_auth(method_view(*auth_method), texts(env_candidates@), pair_views(env@)) || (self@.has_resolver && r is Some),
    {
        match &self.auth_resolver {
            Some(resolver) => {
                let req = AuthRequest {
                    provider_id: provider_id.clone(),
                    provider_name: provider_name.clone(),
                    auth_method: auth_method.copy(),
                    env_candidates: copy_texts(&env_candidates),
                };
                let answer = resolver.resolve(&req);
                resolve_with(answer, auth_method, &env_candidates, env)
            },
            None => resolve_with(Ok(None), auth_method, &env_candidates, env),
        }
    }

    /// Like `resolve_auth_optional`, failing with `MissingCredentials` when
    /// nothing resolves. The ghost result is the resolver's payload, where it
    /// supplied the credentials.
    fn resolve_auth_required(
        &self,
        provider_id: &String,
        provider_name: &String,
        auth_method: &AuthMethod,
        env_candidates: Vec<String>,
        env: &Vec<(String, String)>,
    ) -> (r: (Result<ResolvedAuth, RegistryError>, Ghost<Option<AuthValues>>))
        ensures
            !self@.has_resolver ==> r.1@ is None,
            match credentials(method_view(*auth_method), texts(env_candidates@), pair_views(env@), r.1@) {
                Some(a) => r.0 matches Ok(x) && auth_view(x) == a,
                None => r.0 matches Err(RegistryError::MissingCredentials { provider, method }) && provider@
                    == provider_id@ && method@ == view_kind(method_view(*auth_method)),
            },
    {
        let ghost fallback = env_auth(method_view(*auth_method), texts(env_candidates@), pair_views(env@));
        let o = self.resolve_auth_optional(provider_id, provider_name, auth_method, env_candidates, env);
        let ghost answer = if opt_auth_view(o) == fallback {
            None
        } else {
            opt_auth_view(o)
        };
        match o {
            Some(a) => (Ok(a), Ghost(answer)),
            None => (
                Err(
                    RegistryError::MissingCredentials {
                        provider: provider_id.clone(),
                        method: auth_method.kind().to_owned(),
                    },
                ),
                Ghost(answer),
            ),
        }
    }

    /// The provider is known: registered directly, by metadata, or in the catalogue.
    fn known(&self, id: &String) -> (b: bool)
        ensures
            b == is_known(self@, id@),
    {
        self.provider_pos(id).is_some() || self.registration_pos(id).is_some()
            || self.catalogue_entry(id).is_some()
    }

    /// Some registered factory (or the direct registration) can serve the provider.
    fn provider_is_compatible(&self, id: &String) -> (b: bool)
        ensures
            b == compatible(self@, id@),
    {
        if self.provider_pos(id).is_some() {
            return true;
        }
        match self.registration_pos(id) {
            Some(k) => {
                let reg = &self.registrations[k];
                proof {
                    lemma_key_index(self@.registrations, id@);
                    assert(registration(self@, id@) == Some(reg@));
                }
                for i in 0..reg.npm_packages.len()
                    invariant
                        registration(self@, id@) == Some(reg@),
                        forall|j: int| 0 <= j < i ==> !has_factory(self@, #[trigger] reg@.npm_packages[j]),
                {
                    assert(reg@.npm_packages[i as int] == reg.npm_packages@[i as int]@);
                    if self.factory_pos(&reg.npm_packages[i]).is_some() {
                        return true;
                    }
                }
            },
            None => {},
        }
        match self.catalogue_entry(id) {
            Some(ps) => {
                match &ps.npm {
                    Some(n) => {
                        if self.factory_pos(n).is_some() {
                            return true;
                        }
                    },
                    None => {},
                }
                for i in 0..ps.models.len()
                    invariant
                        catalogue(self@, id@) == Some(ps@),
                        !(ps@.npm matches Some(n) && has_factory(self@, n)),
                        !is_direct(self@, id@),
                        !(registration(self@, id@) matches Some(reg) && exists|i: int|
                            0 <= i < reg.npm_packages.len() && has_factory(self@, #[trigger] reg.npm_packages[i])),
                        forall|j: int|
                            0 <= j < i ==> !(override_npm(#[trigger] ps@.models[j].1) matches Some(n) && has_factory(self@, n)),
                {
                    assert(ps@.models[i as int].1 == ps.models@[i as int].1@);
                    match ps.models[i].1.npm_override() {
                        Some(n) => {
                            if self.factory_pos(n).is_some() {
                                return true;
                            }
                        },
                        None => {},
                    }
                }
                false
            },
            None => false,
        }
    }

    /// Whether the provider is known and some factory can serve it.
    pub fn has_provider(&self, name: &str) -> (b: bool)
        ensures
            b == (is_known(self@, name@) && compatible(self@, name@)),
    {
        let id = name.to_owned();
        self.known(&id) && self.provider_is_compatible(&id)
    }

    /// The auth request of a provider: its display name (registration, else
    /// catalogue, else the id), its auth method (registration, else an API key
    /// read from the catalogue's variables) and the variables it reads.
    fn build_auth_request(&self, provider_id: &String) -> (r: Option<AuthRequest>)
        ensures
            match auth_request_of(self@, provider_id@) {
                Some((name, method)) => r matches Some(req) && req.provider_id@ == provider_id@
                    && req.provider_name@ == name && method_view(req.auth_method) == method
                    && texts(req.env_candidates@) == candidates_of(method),
                None => r is None,
            },
    {
        let rp = self.registration_pos(provider_id);
        let ps = self.catalogue_entry(provider_id);
        proof {
            lemma_key_index(self@.registrations, provider_id@);
        }
        if rp.is_none() && ps.is_none() && self.provider_pos(provider_id).is_none() {
            return None;
        }
        let (name, method) = match rp {
            Some(k) => (self.registrations[k].name.clone(), self.registrations[k].auth_method.copy()),
            None => {
                let name = match ps {
                    Some(p) => p.name.clone(),
                    None => provider_id.clone(),
                };
                let env = match ps {
                    Some(p) => copy_texts(&p.env),
                    None => {
                        let e: Vec<String> = Vec::new();
                        assert(texts(e@) =~= Seq::<Seq<char>>::empty());
                        e
                    },
                };
                (name, AuthMethod::ApiKey(ApiKeyAuth { env }))
            },
        };
        let env_candidates = env_candidates_for_auth(&method);
        Some(AuthRequest { provider_id: provider_id.clone(), provider_name: name, auth_method: method, env_candidates })
    }

    /// The auth request of a known provider.
    pub fn auth_request(&self, provider_id: &str) -> (r: Option<AuthRequest>)
        ensures
            match auth_request_of(self@, provider_id@) {
                Some((name, method)) => r matches Some(req) && req.provider_id@ == provider_id@
                    && req.provider_name@ == name && method_view(req.auth_method) == method
                    && texts(req.env_candidates@) == candidates_of(method),
                None => r is None,
            },
    {
        self.build_auth_request(&provider_id.to_owned())
    }
}

// ---------------------------------------------------------------------------
// Known and available providers
// ---------------------------------------------------------------------------

/// Strictly increasing: in order, and no text twice.
pub open spec fn strictly_sorted(s: Seq<Seq<char>>) -> bool {
    forall|i: int, j: int| 0 <= i < j < s.len() ==> chars_le(#[trigger] s[i], #[trigger] s[j]) && s[i] != s[j]
}

/// Inserts `id` into a strictly increasing list, unless it is there already.
fn insert_sorted(v: &mut Vec<String>, id: String)
    requires
        strictly_sorted(texts(old(v)@)),
    ensures
        strictly_sorted(texts(final(v)@)),
        forall|x: Seq<char>| texts(final(v)@).contains(x) <==> (texts(old(v)@).contains(x) || x == id@),
{
    let ghost old_t = texts(v@);
    let idc = to_chars(id.as_str());
    let mut i: usize = 0;
    while i < v.len()
        invariant
            i <= v.len(),
            idc@ == id@,
            v@ == old(v)@,
            old_t == texts(v@),
            strictly_sorted(old_t),
            forall|j: int| 0 <= j < i ==> chars_le(#[trigger] old_t[j], id@) && old_t[j] != id@,
        decreases v.len() - i,
    {
        if v[i] == id {
            proof {
                assert(old_t[i as int] == id@);
                assert forall|x: Seq<char>| texts(v@).contains(x) <==> (old_t.contains(x) || x == id@) by {
                    if x == id@ {
                        assert(old_t[i as int] == x);
                    }
                }
            }
            return;
        }
        let vc = to_chars(v[i].as_str());
        if chars_le_exec(&idc, &vc) {
            let ghost at = i as int;
            v.insert(i, id);
            proof {
                let nt = texts(v@);
                assert(nt =~= old_t.insert(at, id@));
                assert forall|a: int, b: int| 0 <= a < b < nt.len() implies chars_le(#[trigger] nt[a], #[trigger] nt[b]) && nt[a] != nt[b] by {
                    if b < at {
                    } else if a < at && b == at {
                    } else if a < at && b > at {
                        assert(nt[b] == old_t[b - 1]);
                        assert(chars_le(old_t[a], id@));
                        lemma_chars_le_trans(old_t[a], id@, old_t[at]);
                        if at < b - 1 {
                            lemma_chars_le_trans(old_t[a], old_t[at], old_t[b - 1]);
                        }
                    } else if a == at {
                        assert(nt[b] == old_t[b - 1]);
                        assert(chars_le(id@, old_t[at]));
                        if at < b - 1 {
                            lemma_chars_le_trans(id@, old_t[at], old_t[b - 1]);
                            if id@ == old_t[b - 1] {
                                lemma_chars_le_antisymmetric(old_t[at], old_t[b - 1]);
                            }
                        }
                    } else {
                        assert(nt[a] == old_t[a - 1]);
                        assert(nt[b] == old_t[b - 1]);
                    }
                }
                assert forall|x: Seq<char>| nt.contains(x) <==> (old_t.contains(x) || x == id@) by {
                    if old_t.contains(x) {
                        let k = choose|k: int| 0 <= k < old_t.len() && old_t[k] == x;
                        if k < at {
                            assert(nt[k] == x);
                        } else {
                            assert(nt[k + 1] == x);
                        }
                    }
                    if x == id@ {
                        assert(nt[at] == x);
                    }
                    if nt.contains(x) {
                        let k = choose|k: int| 0 <= k < nt.len() && nt[k] == x;
                        if k < at {
                            assert(old_t[k] == x);
                        } else if k > at {
                            assert(old_t[k - 1] == x);
                        }
                    }
                }
            }
            return;
        }
        proof {
            lemma_chars_le_total(id@, old_t[i as int]);
        }
        i = i + 1;
    }
    v.push(id);
    proof {
        let nt = texts(v@);
        assert(nt =~= old_t.push(id@));
        assert forall|x: Seq<char>| nt.contains(x) <==> (old_t.contains(x) || x == id@) by {
            if old_t.contains(x) {
                let k = choose|k: int| 0 <= k < old_t.len() && old_t[k] == x;
                assert(nt[k] == x);
            }
            if x == id@ {
                assert(nt[old_t.len() as int] == x);
            }
            if nt.contains(x) {
                let k = choose|k: int| 0 <= k < nt.len() && nt[k] == x;
                if k < old_t.len() {
                    assert(old_t[k] == x);
                }
            }
        }
    }
}

/// What a known-provider entry says of a provider known to `r`, under the
/// process environment `env`.
pub open spec fn known_entry(r: RegistryView, k: KnownProvider, env: Seq<(Seq<char>, Seq<char>)>) -> bool {
    match auth_request_of(r, k.id@) {
        Some((name, method)) => {
            let from_env = env_auth(method, candidates_of(method), env) is Some;
            &&& k.name@ == name
            &&& k.auth_method@ == view_kind(method)
            &&& k.compatible == compatible(r, k.id@)
            &&& from_env ==> k.configured
            &&& !r.has_resolver ==> k.configured == from_env
        },
        None => false,
    }
}

/// The ids of a list of providers.
pub open spec fn known_ids(v: Seq<KnownProvider>) -> Seq<Seq<char>> {
    v.map_values(|k: KnownProvider| k.id@)
}

impl Registry {
    /// The ids of all known providers, in increasing order.
    fn known_ids_sorted(&self) -> (v: Vec<String>)
        ensures
            strictly_sorted(texts(v@)),
            forall|x: Seq<char>| texts(v@).contains(x) <==> is_known(self@, x),
    {
        let mut v: Vec<String> = Vec::new();
        assert(texts(v@) =~= Seq::<Seq<char>>::empty());
        let ghost pv = self@.providers;
        let ghost rv = self@.registrations;
        for i in 0..self.providers.len()
            invariant
                pv == self@.providers,
                strictly_sorted(texts(v@)),
                forall|x: Seq<char>| texts(v@).contains(x) <==> exists|j: int| 0 <= j < i && (#[trigger] pv[j]).0 == x,
        {
            insert_sorted(&mut v, self.providers[i].0.clone());
            proof {
                assert forall|x: Seq<char>| texts(v@).contains(x) <==> exists|j: int| 0 <= j < i + 1 && (#[trigger] pv[j]).0 == x by {
                    if x == pv[i as int].0 {
                    }
                }
            }
        }
        for i in 0..self.registrations.len()
            invariant
                pv == self@.providers,
                rv == self@.registrations,
                strictly_sorted(texts(v@)),
                forall|x: Seq<char>| texts(v@).contains(x) <==> (exists|j: int| 0 <= j < pv.len() && (#[trigger] pv[j]).0 == x)
                    || exists|j: int| 0 <= j < i && (#[trigger] rv[j]).0 == x,
        {
            insert_sorted(&mut v, self.registrations[i].id.clone());
            proof {
                assert(rv[i as int].0 == self.registrations@[i as int].id@);
                assert forall|x: Seq<char>| texts(v@).contains(x) <==> (exists|j: int| 0 <= j < pv.len() && (#[trigger] pv[j]).0 == x)
                    || exists|j: int| 0 <= j < i + 1 && (#[trigger] rv[j]).0 == x by {
                    if x == rv[i as int].0 {
                    }
                }
            }
        }
        match &self.spec {
            Some(sp) => {
                let ghost cv = catalogue_views(sp@);
                for i in 0..sp.len()
                    invariant
                        pv == self@.providers,
                        rv == self@.registrations,
                        cv == catalogue_views(sp@),
                        self@.spec == Some(cv),
                        strictly_sorted(texts(v@)),
                        forall|x: Seq<char>| texts(v@).contains(x) <==> (exists|j: int| 0 <= j < pv.len() && (#[trigger] pv[j]).0 == x)
                            || (exists|j: int| 0 <= j < rv.len() && (#[trigger] rv[j]).0 == x)
                            || exists|j: int| 0 <= j < i && (#[trigger] cv[j]).0 == x,
                {
                    insert_sorted(&mut v, sp[i].0.clone());
                    proof {
                        assert forall|x: Seq<char>| texts(v@).contains(x) <==> (exists|j: int| 0 <= j < pv.len() && (#[trigger] pv[j]).0 == x)
                            || (exists|j: int| 0 <= j < rv.len() && (#[trigger] rv[j]).0 == x)
                            || exists|j: int| 0 <= j < i + 1 && (#[trigger] cv[j]).0 == x by {
                            if x == cv[i as int].0 {
                            }
                        }
                    }
                }
                proof {
                    assert forall|x: Seq<char>| texts(v@).contains(x) <==> is_known(self@, x) by {
                        lemma_key_index(pv, x);
                        lemma_key_index(rv, x);
                        lemma_key_index(cv, x);
                    }
                }
            },
            None => {
                proof {
                    assert forall|x: Seq<char>| texts(v@).contains(x) <==> is_known(self@, x) by {
                        lemma_key_index(pv, x);
                        lemma_key_index(rv, x);
                    }
                }
            },
        }
        v
    }

    /// The entry of a known provider.
    fn build_known_provider(&self, provider_id: &String, env: &Vec<(String, String)>) -> (k: KnownProvider)
        requires
            is_known(self@, provider_id@),
        ensures
            k.id@ == provider_id@,
            known_entry(self@, k, pair_views(env@)),
    {
        let req = match self.build_auth_request(provider_id) {
            Some(r) => r,
            None => {
                proof {
                    assert(false);
                }
                AuthRequest {
                    provider_id: provider_id.clone(),
                    provider_name: provider_id.clone(),
                    auth_method: AuthMethod::ApiKey(ApiKeyAuth { env: Vec::new() }),
                    env_candidates: Vec::new(),
                }
            },
        };
        let compatible = self.provider_is_compatible(provider_id);
        let configured = self.resolve_auth_optional(
            provider_id,
            &req.provider_name,
            &req.auth_method,
            copy_texts(&req.env_candidates),
            env,
        ).is_some();
        KnownProvider {
            id: provider_id.clone(),
            name: req.provider_name,
            auth_method: req.auth_method.kind().to_owned(),
            configured,
            compatible,
        }
    }

    /// All known providers, in increasing order of id, each with its display
    /// name, auth method kind, whether credentials resolve (`configured`) and
    /// whether a factory can serve it (`compatible`). `env` is the process
    /// environment, read for API keys.
    ///
    /// With an auth resolver set, `configured` also holds where the resolver
    /// supplies credentials; what it answers is not stated.
    pub fn known_providers(&self, env: &Vec<(String, String)>) -> (r: Vec<KnownProvider>)
        ensures
            strictly_sorted(known_ids(r@)),
            forall|x: Seq<char>| known_ids(r@).contains(x) <==> is_known(self@, x),
            forall|i: int| 0 <= i < r.len() ==> known_entry(self@, #[trigger] r@[i], pair_views(env@)),
    {
        let ids = self.known_ids_sorted();
        let mut out: Vec<KnownProvider> = Vec::new();
        for i in 0..ids.len()
            invariant
                strictly_sorted(texts(ids@)),
                forall|x: Seq<char>| texts(ids@).contains(x) <==> is_known(self@, x),
                out.len() == i,
                known_ids(out@) == texts(ids@).take(i as int),
                forall|j: int| 0 <= j < out.len() ==> known_entry(self@, #[trigger] out@[j], pair_views(env@)),
        {
            assert(texts(ids@)[i as int] == ids@[i as int]@);
            assert(texts(ids@).contains(ids@[i as int]@));
            let k = self.build_known_provider(&ids[i], env);
            let ghost before = out@;
            out.push(k);
            proof {
                assert forall|j: int| 0 <= j < i + 1 implies #[trigger] known_ids(out@)[j] == texts(ids@).take(i + 1)[j] by {
                    if j < i {
                        assert(out@[j] == before[j]);
                        assert(known_ids(before)[j] == texts(ids@).take(i as int)[j]);
                    }
                }
                assert(known_ids(out@) =~= texts(ids@).take(i + 1));
            }
        }
        assert(texts(ids@).take(ids.len() as int) =~= texts(ids@));
        out
    }

    /// The providers that are configured and compatible, in increasing order
    /// of id.
    ///
    /// With an auth resolver set, a provider whose credentials only the
    /// resolver supplies may be listed too; what it answers is not stated.
    pub fn available_providers(&self, env: &Vec<(String, String)>) -> (r: Vec<AvailableProvider>)
        ensures
            strictly_sorted(r@.map_values(|p: AvailableProvider| p.id@)),
            forall|i: int| #![trigger r@[i]] 0 <= i < r.len() ==> is_known(self@, r@[i].id@) && compatible(self@, r@[i].id@)
                && (auth_request_of(self@, r@[i].id@) matches Some((name, _)) && r@[i].name@ == name),
            forall|x: Seq<char>| is_known(self@, x) && compatible(self@, x) && (auth_request_of(self@, x) matches Some((_, m))
                && env_auth(m, candidates_of(m), pair_views(env@)) is Some)
                ==> r@.map_values(|p: AvailableProvider| p.id@).contains(x),
            !self@.has_resolver ==> forall|i: int| #![trigger r@[i]] 0 <= i < r.len() ==> (auth_request_of(self@, r@[i].id@) matches Some((_, m))
                && env_auth(m, candidates_of(m), pair_views(env@)) is Some),
    {
        let known = self.known_providers(env);
        let mut out: Vec<AvailableProvider> = Vec::new();
        let ghost kids = known_ids(known@);
        let ghost mut src: Seq<int> = Seq::empty();
        for i in 0..known.len()
            invariant
                kids == known_ids(known@),
                out.len() == src.len(),
                forall|j: int| #![trigger src[j]] 0 <= j < src.len() ==> 0 <= src[j] < i && out@[j].id@ == known@[src[j]].id@
                    && out@[j].name@ == known@[src[j]].name@ && known@[src[j]].configured && known@[src[j]].compatible,
                forall|a: int, b: int| 0 <= a < b < src.len() ==> #[trigger] src[a] < #[trigger] src[b],
                forall|k: int| 0 <= k < i && (#[trigger] known@[k]).configured && known@[k].compatible ==> exists|j: int|
                    0 <= j < src.len() && src[j] == k,
        {
            if known[i].configured && known[i].compatible {
                out.push(AvailableProvider { id: known[i].id.clone(), name: known[i].name.clone() });
                proof {
                    let old_src = src;
                    src = src.push(i as int);
                    assert(src[src.len() - 1] == i as int);
                    assert forall|k: int| 0 <= k < i + 1 && (#[trigger] known@[k]).configured && known@[k].compatible implies exists|j: int|
                        0 <= j < src.len() && src[j] == k by {
                        if k < i {
                            let j = choose|j: int| 0 <= j < old_src.len() && old_src[j] == k;
                            assert(src[j] == old_src[j]);
                        } else {
                            assert(src[src.len() - 1] == k);
                        }
                    }
                }
            }
        }
        proof {
            lemma_available(self@, known@, out@, src, pair_views(env@));
        }
        out
    }
}

proof fn lemma_available(
    r: RegistryView,
    known: Seq<KnownProvider>,
    out: Seq<AvailableProvider>,
    src: Seq<int>,
    env: Seq<(Seq<char>, Seq<char>)>,
)
    requires
        strictly_sorted(known_ids(known)),
        forall|x: Seq<char>| known_ids(known).contains(x) <==> is_known(r, x),
        forall|i: int| 0 <= i < known.len() ==> known_entry(r, #[trigger] known[i], env),
        out.len() == src.len(),
        forall|j: int| #![trigger src[j]] 0 <= j < src.len() ==> 0 <= src[j] < known.len() && out[j].id@ == known[src[j]].id@
            && out[j].name@ == known[src[j]].name@ && known[src[j]].configured && known[src[j]].compatible,
        forall|a: int, b: int| 0 <= a < b < src.len() ==> #[trigger] src[a] < #[trigger] src[b],
        forall|k: int| 0 <= k < known.len() && (#[trigger] known[k]).configured && known[k].compatible ==> exists|j: int|
            0 <= j < src.len() && src[j] == k,
    ensures
        strictly_sorted(out.map_values(|p: AvailableProvider| p.id@)),
        forall|i: int| #![trigger out[i]] 0 <= i < out.len() ==> is_known(r, out[i].id@) && compatible(r, out[i].id@)
            && (auth_request_of(r, out[i].id@) matches Some((name, _)) && out[i].name@ == name),
        forall|x: Seq<char>| is_known(r, x) && compatible(r, x) && (auth_request_of(r, x) matches Some((_, m))
            && env_auth(m, candidates_of(m), env) is Some)
            ==> out.map_values(|p: AvailableProvider| p.id@).contains(x),
        !r.has_resolver ==> forall|i: int| #![trigger out[i]] 0 <= i < out.len() ==> (auth_request_of(r, out[i].id@) matches Some((_, m))
            && env_auth(m, candidates_of(m), env) is Some),
{
    let kids = known_ids(known);
    let ids = out.map_values(|p: AvailableProvider| p.id@);
    assert forall|a: int, b: int| 0 <= a < b < ids.len() implies chars_le(#[trigger] ids[a], #[trigger] ids[b]) && ids[a] != ids[b] by {
        assert(src[a] < src[b]);
        assert(kids[src[a]] == known[src[a]].id@);
        assert(kids[src[b]] == known[src[b]].id@);
    }
    assert forall|i: int| #![trigger out[i]] 0 <= i < out.len() implies is_known(r, out[i].id@) && compatible(r, out[i].id@)
        && (auth_request_of(r, out[i].id@) matches Some((name, _)) && out[i].name@ == name) by {
        let k = src[i];
        assert(known_entry(r, known[k], env));
        assert(kids[k] == known[k].id@);
        assert(kids.contains(known[k].id@));
    }
    assert forall|x: Seq<char>| is_known(r, x) && compatible(r, x) && (auth_request_of(r, x) matches Some((_, m))
        && env_auth(m, candidates_of(m), env) is Some) implies ids.contains(x) by {
        assert(kids.contains(x));
        let k = choose|k: int| 0 <= k < kids.len() && kids[k] == x;
        assert(kids[k] == known[k].id@);
        assert(known_entry(r, known[k], env));
        let j = choose|j: int| 0 <= j < src.len() && src[j] == k;
        assert(ids[j] == out[j].id@);
    }
    if !r.has_resolver {
        assert forall|i: int| #![trigger out[i]] 0 <= i < out.len() implies (auth_request_of(r, out[i].id@) matches Some((_, m))
            && env_auth(m, candidates_of(m), env) is Some) by {
            let k = src[i];
            assert(known_entry(r, known[k], env));
        }
    }
}

// ---------------------------------------------------------------------------
// Model metadata
// ---------------------------------------------------------------------------

/// The values of a keyed sequence, in order.
pub open spec fn values_of<V>(s: Seq<(Seq<char>, V)>) -> Seq<V> {
    s.map_values(|e: (Seq<char>, V)| e.1)
}

/// The models a registration provides: its static list, the catalogue's
/// models of the provider, or what its loader gave (`loaded`: the list, or
/// `None` where the loader failed).
pub open spec fn registration_models(
    r: RegistryView,
    id: Seq<char>,
    reg: RegistrationView,
    loaded: Option<Seq<ModelSpecView>>,
) -> Option<Seq<ModelSpecView>> {
    match reg.source {
        SourceView::ModelsDev => Some(
            match catalogue(r, id) {
                Some(ps) => values_of(ps.models),
                None => Seq::empty(),
            },
        ),
        SourceView::Static(v) => Some(v),
        SourceView::Dynamic => loaded,
    }
}

/// The entries of `ms` that satisfy `p`, in order.
pub open spec fn keep(ms: Seq<ModelSpecView>, p: spec_fn(ModelSpecView) -> bool) -> Seq<ModelSpecView>
    decreases ms.len(),
{
    if ms.len() == 0 {
        Seq::empty()
    } else {
        let rest = keep(ms.drop_last(), p);
        if p(ms.last()) {
            rest.push(ms.last())
        } else {
            rest
        }
    }
}

/// The first of two optional texts that is present.
pub open spec fn or_else(a: Option<Seq<char>>, b: Option<Seq<char>>) -> Option<Seq<char>> {
    match a {
        Some(x) => Some(x),
        None => b,
    }
}

pub open spec fn first_of(s: Seq<Seq<char>>) -> Option<Seq<char>> {
    if s.len() > 0 {
        Some(s[0])
    } else {
        None
    }
}

/// A model of a registration can be served: the provider is registered
/// directly, or a factory exists for the model's package (its own override,
/// else the registration's first package).
pub open spec fn served_registered(r: RegistryView, id: Seq<char>, reg: RegistrationView) -> spec_fn(ModelSpecView) -> bool {
    |m: ModelSpecView| is_direct(r, id) || (or_else(override_npm(m), first_of(reg.npm_packages)) matches Some(n) && has_factory(r, n))
}

/// A catalogue model can be served: the provider is registered directly, or
/// a factory exists for the model's package (its override, else the
/// provider's).
pub open spec fn served_catalogue(r: RegistryView, id: Seq<char>, ps: ProviderSpecView) -> spec_fn(ModelSpecView) -> bool {
    |m: ModelSpecView| is_direct(r, id) || (or_else(override_npm(m), ps.npm) matches Some(n) && has_factory(r, n))
}

/// The models listed for a provider: those of its registration that can be
/// served (none where the loader failed), else those of its catalogue entry.
pub open spec fn listing(r: RegistryView, id: Seq<char>, loaded: Option<Seq<ModelSpecView>>) -> Seq<ModelSpecView> {
    match registration(r, id) {
        Some(reg) => match registration_models(r, id, reg, loaded) {
            Some(ms) => keep(ms, served_registered(r, id, reg)),
            None => Seq::empty(),
        },
        None => match catalogue(r, id) {
            Some(ps) => keep(values_of(ps.models), served_catalogue(r, id, ps)),
            None => Seq::empty(),
        },
    }
}

/// The first model with identifier `id`.
pub open spec fn find_model(ms: Seq<ModelSpecView>, id: Seq<char>) -> Option<ModelSpecView>
    decreases ms.len(),
{
    if ms.len() == 0 {
        None
    } else if ms[0].id == id {
        Some(ms[0])
    } else {
        find_model(ms.drop_first(), id)
    }
}

/// The metadata of a model: from the registration's models (none where the
/// loader failed), else from the catalogue entry.
pub open spec fn model_metadata(
    r: RegistryView,
    provider: Seq<char>,
    model: Seq<char>,
    loaded: Option<Seq<ModelSpecView>>,
) -> Option<ModelSpecView> {
    match registration(r, provider) {
        Some(reg) => match registration_models(r, provider, reg, loaded) {
            Some(ms) => find_model(ms, model),
            None => None,
        },
        None => match catalogue(r, provider) {
            Some(ps) => lookup_key(ps.models, model),
            None => None,
        },
    }
}

/// Whether the provider's registration loads its models through a loader.
pub open spec fn loads_dynamically(r: RegistryView, id: Seq<char>) -> bool {
    registration(r, id) matches Some(reg) && reg.source is Dynamic
}

/// Copies of model entries.
fn copy_models(v: &Vec<ModelSpec>) -> (r: Vec<ModelSpec>)
    ensures
        model_views(r@) == model_views(v@),
{
    let mut r: Vec<ModelSpec> = Vec::new();
    for i in 0..v.len()
        invariant
            r.len() == i,
            forall|j: int| 0 <= j < i ==> (#[trigger] r@[j])@ == v@[j]@,
    {
        r.push(v[i].copy());
    }
    assert(model_views(r@) =~= model_views(v@));
    r
}

/// The first entry of `v` with identifier `id`.
fn find_model_exec(v: &Vec<ModelSpec>, id: &String) -> (r: Option<usize>)
    ensures
        match find_model(model_views(v@), id@) {
            Some(m) => r matches Some(i) && i < v.len() && v@[i as int]@ == m,
            None => r is None,
        },
{
    let ghost ms = model_views(v@);
    assert(ms.skip(0) == ms);
    for i in 0..v.len()
        invariant
            ms == model_views(v@),
            find_model(ms, id@) == find_model(ms.skip(i as int), id@),
    {
        assert(ms.skip(i as int).drop_first() == ms.skip(i + 1));
        assert(ms.skip(i as int)[0] == v@[i as int]@);
        if v[i].id == *id {
            return Some(i);
        }
    }
    assert(ms.skip(v.len() as int) =~= Seq::<ModelSpecView>::empty());
    None
}

impl Registry {
    /// The models a registration provides (see `registration_models`).
    fn models_from_registration(&self, provider_id: &String, reg: &ProviderRegistration) -> (r: Result<Vec<ModelSpec>, RegistryError>)
        ensures
            match r {
                Ok(v) => registration_models(self@, provider_id@, reg@, Some(model_views(v@))) == Some(model_views(v@)),
                Err(_) => reg@.source is Dynamic,
            },
    {
        match &reg.model_source {
            ModelSource::ModelsDev => {
                let mut out: Vec<ModelSpec> = Vec::new();
                match self.catalogue_entry(provider_id) {
                    Some(ps) => {
                        for i in 0..ps.models.len()
                            invariant
                                out.len() == i,
                                forall|j: int| 0 <= j < i ==> (#[trigger] out@[j])@ == ps.models@[j].1@,
                        {
                            out.push(ps.models[i].1.copy());
                        }
                        assert(model_views(out@) =~= values_of(ps@.models));
                    },
                    None => {
                        assert(model_views(out@) =~= Seq::<ModelSpecView>::empty());
                    },
                }
                Ok(out)
            },
            ModelSource::Static(v) => Ok(copy_models(v)),
            ModelSource::Dynamic(loader) => loader.load_models(provider_id.as_str()),
        }
    }

    /// The models of a registration that can be served.
    fn list_registered_models(&self, provider_id: &String, reg: &ProviderRegistration) -> (r: (Vec<ModelSpec>, Ghost<Option<Seq<ModelSpecView>>>))
        ensures
            model_views(r.0@) == match registration_models(self@, provider_id@, reg@, r.1@) {
                Some(ms) => keep(ms, served_registered(self@, provider_id@, reg@)),
                None => Seq::empty(),
            },
    {
        let models = match self.models_from_registration(provider_id, reg) {
            Ok(m) => m,
            Err(_) => {
                let e: Vec<ModelSpec> = Vec::new();
                assert(model_views(e@) =~= Seq::<ModelSpecView>::empty());
                return (e, Ghost(None));
            },
        };
        let ghost ms = model_views(models@);
        let ghost p = served_registered(self@, provider_id@, reg@);
        let direct = self.provider_pos(provider_id).is_some();
        let mut out: Vec<ModelSpec> = Vec::new();
        for i in 0..models.len()
            invariant
                ms == model_views(models@),
                p == served_registered(self@, provider_id@, reg@),
                direct == is_direct(self@, provider_id@),
                model_views(out@) == keep(ms.take(i as int), p),
        {
            let m = &models[i];
            proof {
                assert(ms.take(i + 1).drop_last() == ms.take(i as int));
                assert(ms.take(i + 1).last() == m@);
            }
            let npm: Option<&String> = match m.npm_override() {
                Some(n) => Some(n),
                None => if reg.npm_packages.len() > 0 {
                    Some(&reg.npm_packages[0])
                } else {
                    None
                },
            };
            let served = direct || match npm {
                Some(n) => self.factory_pos(n).is_some(),
                None => false,
            };
            if served {
                out.push(m.copy());
                assert(model_views(out@) =~= keep(ms.take(i as int), p).push(m@));
            }
        }
        assert(ms.take(models.len() as int) == ms);
        (out, Ghost(Some(ms)))
    }

    /// The models of a catalogue entry that can be served.
    fn list_spec_models(&self, provider_id: &String) -> (r: Vec<ModelSpec>)
        ensures
            model_views(r@) == match catalogue(self@, provider_id@) {
                Some(ps) => keep(values_of(ps.models), served_catalogue(self@, provider_id@, ps)),
                None => Seq::empty(),
            },
    {
        let mut out: Vec<ModelSpec> = Vec::new();
        match self.catalogue_entry(provider_id) {
            Some(ps) => {
                let ghost ms = values_of(ps@.models);
                let ghost p = served_catalogue(self@, provider_id@, ps@);
                let direct = self.provider_pos(provider_id).is_some();
                for i in 0..ps.models.len()
                    invariant
                        ms == values_of(ps@.models),
                        p == served_catalogue(self@, provider_id@, ps@),
                        direct == is_direct(self@, provider_id@),
                        model_views(out@) == keep(ms.take(i as int), p),
                {
                    let m = &ps.models[i].1;
                    proof {
                        assert(ms.take(i + 1).drop_last() == ms.take(i as int));
                        assert(ms.take(i + 1).last() == m@);
                    }
                    let npm: Option<&String> = match m.npm_override() {
                        Some(n) => Some(n),
                        None => match &ps.npm {
                            Some(n) => Some(n),
                            None => None,
                        },
                    };
                    let served = direct || match npm {
                        Some(n) => self.factory_pos(n).is_some(),
                        None => false,
                    };
                    if served {
                        out.push(m.copy());
                        assert(model_views(out@) =~= keep(ms.take(i as int), p).push(m@));
                    }
                }
                assert(ms.take(ps.models.len() as int) == ms);
            },
            None => {
                assert(model_views(out@) =~= Seq::<ModelSpecView>::empty());
            },
        }
        out
    }

    /// The models of a provider that can be served: from its registration if
    /// it has one, else from the catalogue.
    ///
    /// For a registration whose models come from a loader, the loader's
    /// answer is not stated.
    pub fn list_models(&self, provider: &str) -> (r: Vec<ModelSpec>)
        ensures
            exists|loaded: Option<Seq<ModelSpecView>>| model_views(r@) == listing(self@, provider@, loaded),
            !loads_dynamically(self@, provider@) ==> model_views(r@) == listing(self@, provider@, None),
    {
        let id = provider.to_owned();
        match self.registration_pos(&id) {
            Some(k) => {
                proof {
                    lemma_key_index(self@.registrations, id@);
                }
                let (r, loaded) = self.list_registered_models(&id, &self.registrations[k]);
                assert(model_views(r@) == listing(self@, provider@, loaded@));
                r
            },
            None => {
                let r = self.list_spec_models(&id);
                assert(model_views(r@) == listing(self@, provider@, None));
                r
            },
        }
    }

    /// The metadata of one model of a provider.
    ///
    /// For a registration whose models come from a loader, the loader's
    /// answer is not stated.
    pub fn model_spec(&self, provider: &str, model_id: &str) -> (r: Option<ModelSpec>)
        ensures
            exists|loaded: Option<Seq<ModelSpecView>>| opt_model_view(r) == model_metadata(self@, provider@, model_id@, loaded),
            !loads_dynamically(self@, provider@) ==> opt_model_view(r) == model_metadata(self@, provider@, model_id@, None),
    {
        let id = provider.to_owned();
        let mid = model_id.to_owned();
        match self.registration_pos(&id) {
            Some(k) => {
                proof {
                    lemma_key_index(self@.registrations, id@);
                }
                match self.models_from_registration(&id, &self.registrations[k]) {
                    Ok(models) => {
                        let r = match find_model_exec(&models, &mid) {
                            Some(i) => Some(models[i].copy()),
                            None => None,
                        };
                        assert(opt_model_view(r) == model_metadata(self@, provider@, model_id@, Some(model_views(models@))));
                        r
                    },
                    Err(_) => {
                        assert(opt_model_view(None) == model_metadata(self@, provider@, model_id@, None));
                        None
                    },
                }
            },
            None => {
                match self.catalogue_entry(&id) {
                    Some(ps) => {
                        let p = position(&ps.models, &mid);
                        proof {
                            match p {
                                Some(i) => lemma_key_index_is(ps@.models, mid@, Some(i as int)),
                                None => lemma_key_index_is(ps@.models, mid@, None),
                            }
                        }
                        let r = match p {
                            Some(i) => Some(ps.models[i].1.copy()),
                            None => None,
                        };
                        assert(opt_model_view(r) == model_metadata(self@, provider@, model_id@, None));
                        r
                    },
                    None => {
                        assert(opt_model_view(None) == model_metadata(self@, provider@, model_id@, None));
                        None
                    },
                }
            },
        }
    }
}

pub open spec fn opt_model_view(m: Option<ModelSpec>) -> Option<ModelSpecView> {
    match m {
        Some(x) => Some(x@),
        None => None,
    }
}

// ---------------------------------------------------------------------------
// Routing a model request
// ---------------------------------------------------------------------------

/// Which factory serves a model: the one of an SDK package, or the
/// provider's direct registration.
#[derive(Debug)]
pub enum ProviderRoute {
    Package(String),
    Direct,
}

/// Options handed to a provider factory.
#[derive(Debug)]
pub struct ProviderOptions {
    /// The provider identifier.
    pub id: String,
    /// Base API endpoint; `None` means the provider's default.
    pub api_endpoint: Option<String>,
    /// Provider-specific factory options (JSON text) from the registration.
    pub factory_options: Option<String>,
    /// Resolved credentials.
    pub auth: ResolvedAuth,
}

/// How to obtain a model: the factory to use, the options to build the
/// provider with, their signature, and whether an instance must be built
/// (none was recorded for this factory and provider with this signature).
#[derive(Debug)]
pub struct ModelPlan {
    pub route: ProviderRoute,
    pub provider_id: String,
    pub model_id: String,
    pub options: ProviderOptions,
    pub signature: String,
    pub rebuild: bool,
}

pub enum RouteView {
    Package(Seq<char>),
    Direct,
}

pub open spec fn route_view(r: ProviderRoute) -> RouteView {
    match r {
        ProviderRoute::Package(n) => RouteView::Package(n@),
        ProviderRoute::Direct => RouteView::Direct,
    }
}

/// What a plan decides, as values.
pub struct PlanView {
    pub route: RouteView,
    pub api_endpoint: Option<Seq<char>>,
    pub factory_options: Option<Seq<char>>,
    pub auth: AuthValues,
}

/// What a step of model resolution decides: a plan, to pass on to the next
/// step, or a failure.
pub enum Outcome {
    Plan(PlanView),
    Pass,
    ProviderNotFound(Seq<char>),
    ModelNotFound,
    MissingCredentials(Seq<char>),
    LoaderFailed,
}

pub open spec fn opt_or_empty(o: Option<Seq<char>>) -> Seq<char> {
    match o {
        Some(t) => t,
        None => Seq::empty(),
    }
}

/// `sig` identifies the options: the id, the endpoint, the credentials'
/// signature and the factory options, separated by `|`.
pub open spec fn options_signature_is(o: ProviderOptions, sig: Seq<char>) -> bool {
    exists|a: Seq<char>|
        #![trigger signature_of(o.auth.method@, pair_views(o.auth.values@), a)]
        signature_of(o.auth.method@, pair_views(o.auth.values@), a) && sig == o.id@ + seq!['|'] + opt_or_empty(
            opt_text(o.api_endpoint),
        ) + seq!['|'] + a + seq!['|'] + opt_or_empty(opt_text(o.factory_options))
}

/// An instance built with options of signature `sig` is recorded for the
/// route's factory and the provider.
pub open spec fn is_cached(r: RegistryView, route: RouteView, id: Seq<char>, sig: Seq<char>) -> bool {
    match route {
        RouteView::Package(n) => lookup_key(r.factories, n) matches Some(inst) && lookup_key(inst, id) == Some(sig),
        RouteView::Direct => lookup_key(r.providers, id) == Some(Some(sig)),
    }
}

/// A registered provider's step: for a model of its registration, route it
/// through the model's package (its override, else the catalogue's package,
/// else the registration's first) when a factory exists for it, else
/// through the direct registration; fail when neither exists or when
/// credentials do not resolve. A model the registration does not list is
/// not found, unless the registration lists none.
pub open spec fn registered_step(
    r: RegistryView,
    id: Seq<char>,
    model: Seq<char>,
    env: Seq<(Seq<char>, Seq<char>)>,
    loaded: Option<Seq<ModelSpecView>>,
    answer: Option<AuthValues>,
) -> Outcome {
    match registration(r, id) {
        None => Outcome::Pass,
        Some(reg) => match registration_models(r, id, reg, loaded) {
            None => Outcome::LoaderFailed,
            Some(ms) => match find_model(ms, model) {
                Some(m) => {
                    let ps_npm = match catalogue(r, id) {
                        Some(ps) => ps.npm,
                        None => None,
                    };
                    let ps_api = match catalogue(r, id) {
                        Some(ps) => ps.api,
                        None => None,
                    };
                    let npm = or_else(override_npm(m), or_else(ps_npm, first_of(reg.npm_packages)));
                    match credentials(reg.auth_method, candidates_of(reg.auth_method), env, answer) {
                        None => Outcome::MissingCredentials(view_kind(reg.auth_method)),
                        Some(auth) => {
                            let api = or_else(reg.api_endpoint, ps_api);
                            if npm matches Some(n) && has_factory(r, n) {
                                Outcome::Plan(
                                    PlanView {
                                        route: RouteView::Package(npm->0),
                                        api_endpoint: api,
                                        factory_options: reg.factory_options,
                                        auth,
                                    },
                                )
                            } else if is_direct(r, id) {
                                Outcome::Plan(
                                    PlanView { route: RouteView::Direct, api_endpoint: api, factory_options: reg.factory_options, auth },
                                )
                            } else {
                                Outcome::ProviderNotFound(id + " (no compatible provider factory)"@)
                            }
                        },
                    }
                },
                None => if ms.len() > 0 {
                    Outcome::ModelNotFound
                } else {
                    Outcome::Pass
                },
            },
        },
    }
}

/// The catalogue's step: a model the catalogue lists for the provider,
/// with a package (its override, else the provider's), is routed through
/// that package's factory with an API key read from the provider's
/// variables; without such a factory the step passes.
pub open spec fn spec_step(
    r: RegistryView,
    id: Seq<char>,
    model: Seq<char>,
    env: Seq<(Seq<char>, Seq<char>)>,
    answer: Option<AuthValues>,
) -> Outcome {
    match catalogue(r, id) {
        None => Outcome::Pass,
        Some(ps) => match lookup_key(ps.models, model) {
            None => Outcome::Pass,
            Some(m) => match or_else(override_npm(m), ps.npm) {
                None => Outcome::Pass,
                Some(n) => match credentials(AuthMethodView::ApiKey(ps.env), ps.env, env, answer) {
                    None => Outcome::MissingCredentials("api_key"@),
                    Some(auth) => if has_factory(r, n) {
                        Outcome::Plan(
                            PlanView { route: RouteView::Package(n), api_endpoint: ps.api, factory_options: None, auth },
                        )
                    } else {
                        Outcome::Pass
                    },
                },
            },
        },
    }
}

/// The direct step: a provider registered directly is served by its own
/// factory, with the registration's (else the catalogue's) auth method and
/// endpoint.
pub open spec fn direct_step(
    r: RegistryView,
    id: Seq<char>,
    env: Seq<(Seq<char>, Seq<char>)>,
    answer: Option<AuthValues>,
) -> Outcome {
    if !is_direct(r, id) {
        Outcome::ProviderNotFound(id)
    } else {
        let method = match registration(r, id) {
            Some(reg) => reg.auth_method,
            None => AuthMethodView::ApiKey(
                match catalogue(r, id) {
                    Some(ps) => ps.env,
                    None => Seq::empty(),
                },
            ),
        };
        match credentials(method, candidates_of(method), env, answer) {
            None => Outcome::MissingCredentials(view_kind(method)),
            Some(auth) => {
                let reg_api = match registration(r, id) {
                    Some(reg) => reg.api_endpoint,
                    None => None,
                };
                let ps_api = match catalogue(r, id) {
                    Some(ps) => ps.api,
                    None => None,
                };
                let fo = match registration(r, id) {
                    Some(reg) => reg.factory_options,
                    None => None,
                };
                Outcome::Plan(PlanView { route: RouteView::Direct, api_endpoint: or_else(reg_api, ps_api), factory_options: fo, auth })
            },
        }
    }
}

/// Model resolution: the registration's step, else the catalogue's, else
/// the direct registration. `loaded` is what a registration's loader gave;
/// `a1`, `a2`, `a3` are what the auth resolver supplied to each step.
pub open spec fn model_outcome(
    r: RegistryView,
    id: Seq<char>,
    model: Seq<char>,
    env: Seq<(Seq<char>, Seq<char>)>,
    loaded: Option<Seq<ModelSpecView>>,
    a1: Option<AuthValues>,
    a2: Option<AuthValues>,
    a3: Option<AuthValues>,
) -> Outcome {
    match registered_step(r, id, model, env, loaded, a1) {
        Outcome::Pass => match spec_step(r, id, model, env, a2) {
            Outcome::Pass => direct_step(r, id, env, a3),
            o => o,
        },
        o => o,
    }
}

/// A plan made by `r` carries what `pv` decides.
pub open spec fn plan_is(r: RegistryView, plan: ModelPlan, pv: PlanView, id: Seq<char>, model: Seq<char>) -> bool {
    &&& route_view(plan.route) == pv.route
    &&& plan.provider_id@ == id
    &&& plan.model_id@ == model
    &&& plan.options.id@ == id
    &&& opt_text(plan.options.api_endpoint) == pv.api_endpoint
    &&& opt_text(plan.options.factory_options) == pv.factory_options
    &&& auth_view(plan.options.auth) == pv.auth
    &&& options_signature_is(plan.options, plan.signature@)
    &&& plan.rebuild == !is_cached(r, pv.route, id, plan.signature@)
}

/// The result of a step carries its outcome (`Pass`: no plan yet).
pub open spec fn step_is(
    res: Result<Option<ModelPlan>, RegistryError>,
    o: Outcome,
    r: RegistryView,
    id: Seq<char>,
    model: Seq<char>,
) -> bool {
    match o {
        Outcome::Plan(pv) => res matches Ok(Some(plan)) && plan_is(r, plan, pv, id, model),
        Outcome::Pass => res matches Ok(None),
        Outcome::ProviderNotFound(msg) => res matches Err(RegistryError::ProviderNotFound(t)) && t@ == msg,
        Outcome::ModelNotFound => res matches Err(RegistryError::ModelNotFound { provider, model: m }) && provider@
            == id && m@ == model,
        Outcome::MissingCredentials(kind) => res matches Err(RegistryError::MissingCredentials { provider, method })
            && provider@ == id && method@ == kind,
        Outcome::LoaderFailed => res is Err,
    }
}

/// The result of model resolution carries its outcome.
pub open spec fn result_is(
    res: Result<ModelPlan, RegistryError>,
    o: Outcome,
    r: RegistryView,
    id: Seq<char>,
    model: Seq<char>,
) -> bool {
    match res {
        Ok(plan) => step_is(Ok(Some(plan)), o, r, id, model),
        Err(e) => step_is(Err(e), o, r, id, model),
    }
}

/// The signature of provider options (see `options_signature_is`).
pub fn options_signature(options: &ProviderOptions) -> (sig: String)
    ensures
        options_signature_is(*options, sig@),
{
    let mut out = String::new();
    push_str(&mut out, options.id.as_str());
    push_char(&mut out, '|');
    match &options.api_endpoint {
        Some(e) => push_str(&mut out, e.as_str()),
        None => {},
    }
    push_char(&mut out, '|');
    let a = auth_signature(&options.auth);
    push_str(&mut out, a.as_str());
    push_char(&mut out, '|');
    match &options.factory_options {
        Some(f) => push_str(&mut out, f.as_str()),
        None => {},
    }
    assert(out@ =~= options.id@ + seq!['|'] + opt_or_empty(opt_text(options.api_endpoint)) + seq!['|'] + a@ + seq!['|']
        + opt_or_empty(opt_text(options.factory_options)));
    out
}

impl Registry {
    /// Whether an instance with this signature is recorded for the route.
    fn cached(&self, route: &ProviderRoute, id: &String, sig: &String) -> (b: bool)
        ensures
            b == is_cached(self@, route_view(*route), id@, sig@),
    {
        match route {
            ProviderRoute::Package(n) => match self.factory_pos(n) {
                Some(k) => {
                    proof {
                        lemma_key_index(self@.factories, n@);
                    }
                    let inst = &self.factories[k].1;
                    let p = position(inst, id);
                    proof {
                        match p {
                            Some(i) => lemma_key_index_is(pair_views(inst@), id@, Some(i as int)),
                            None => lemma_key_index_is(pair_views(inst@), id@, None),
                        }
                    }
                    match p {
                        Some(i) => inst[i].1 == *sig,
                        None => false,
                    }
                },
                None => false,
            },
            ProviderRoute::Direct => match self.provider_pos(id) {
                Some(k) => {
                    proof {
                        lemma_key_index(self@.providers, id@);
                    }
                    match &self.providers[k].1 {
                        Some(t) => *t == *sig,
                        None => false,
                    }
                },
                None => false,
            },
        }
    }

    /// A plan for the route with these options.
    fn make_plan(&self, route: ProviderRoute, provider_id: &String, model_id: &String, options: ProviderOptions) -> (p: ModelPlan)
        ensures
            route_view(p.route) == route_view(route),
            p.provider_id@ == provider_id@,
            p.model_id@ == model_id@,
            p.options == options,
            options_signature_is(p.options, p.signature@),
            p.rebuild == !is_cached(self@, route_view(route), provider_id@, p.signature@),
    {
        let signature = options_signature(&options);
        let rebuild = !self.cached(&route, provider_id, &signature);
        ModelPlan { route, provider_id: provider_id.clone(), model_id: model_id.clone(), options, signature, rebuild }
    }

    /// The registration's step (see `registered_step`); the ghost results
    /// are what the loader gave and what the resolver supplied.
    fn model_via_registered(&self, provider_id: &String, model_id: &String, env: &Vec<(String, String)>) -> (res: (
        Result<Option<ModelPlan>, RegistryError>,
        Ghost<Option<Seq<ModelSpecView>>>,
        Ghost<Option<AuthValues>>,
    ))
        ensures
            step_is(res.0, registered_step(self@, provider_id@, model_id@, pair_views(env@), res.1@, res.2@), self@, provider_id@, model_id@),
            !self@.has_resolver ==> res.2@ is None,
            !loads_dynamically(self@, provider_id@) ==> registered_step(self@, provider_id@, model_id@, pair_views(env@), res.1@, res.2@)
                == registered_step(self@, provider_id@, model_id@, pair_views(env@), None, res.2@),
    {
        let k = match self.registration_pos(provider_id) {
            Some(k) => k,
            None => return (Ok(None), Ghost(None), Ghost(None)),
        };
        proof {
            lemma_key_index(self@.registrations, provider_id@);
        }
        let reg = &self.registrations[k];
        let ps = self.catalogue_entry(provider_id);
        let models = match self.models_from_registration(provider_id, reg) {
            Ok(m) => m,
            Err(e) => return (Err(e), Ghost(None), Ghost(None)),
        };
        let ghost loaded = Some(model_views(models@));
        let found = find_model_exec(&models, model_id);
        match found {
            Some(i) => {
                let m = &models[i];
                let npm: Option<String> = match m.npm_override() {
                    Some(n) => Some(n.clone()),
                    None => match ps {
                        Some(p) => match &p.npm {
                            Some(n) => Some(n.clone()),
                            None => if reg.npm_packages.len() > 0 {
                                Some(reg.npm_packages[0].clone())
                            } else {
                                None
                            },
                        },
                        None => if reg.npm_packages.len() > 0 {
                            Some(reg.npm_packages[0].clone())
                        } else {
                            None
                        },
                    },
                };
                let (auth, answer) = self.resolve_auth_required(
                    provider_id,
                    &reg.name,
                    &reg.auth_method,
                    env_candidates_for_auth(&reg.auth_method),
                    env,
                );
                let auth = match auth {
                    Ok(a) => a,
                    Err(e) => return (Err(e), Ghost(loaded), answer),
                };
                let api_endpoint = match &reg.api_endpoint {
                    Some(e) => Some(e.clone()),
                    None => match ps {
                        Some(p) => copy_opt(&p.api),
                        None => None,
                    },
                };
                let options = ProviderOptions {
                    id: provider_id.clone(),
                    api_endpoint,
                    factory_options: copy_opt(&reg.factory_options),
                    auth,
                };
                match npm {
                    Some(n) => {
                        if self.factory_pos(&n).is_some() {
                            let plan = self.make_plan(ProviderRoute::Package(n), provider_id, model_id, options);
                            return (Ok(Some(plan)), Ghost(loaded), answer);
                        }
                    },
                    None => {},
                }
                if self.provider_pos(provider_id).is_some() {
                    let plan = self.make_plan(ProviderRoute::Direct, provider_id, model_id, options);
                    return (Ok(Some(plan)), Ghost(loaded), answer);
                }
                let mut msg = provider_id.clone();
                push_str(&mut msg, " (no compatible provider factory)");
                (Err(RegistryError::ProviderNotFound(msg)), Ghost(loaded), answer)
            },
            None => {
                if models.len() > 0 {
                    (
                        Err(RegistryError::ModelNotFound { provider: provider_id.clone(), model: model_id.clone() }),
                        Ghost(loaded),
                        Ghost(None),
                    )
                } else {
                    (Ok(None), Ghost(loaded), Ghost(None))
                }
            },
        }
    }

    /// The catalogue's step (see `spec_step`); the ghost result is what the
    /// resolver supplied.
    fn model_via_spec(&self, provider_id: &String, model_id: &String, env: &Vec<(String, String)>) -> (res: (
        Result<Option<ModelPlan>, RegistryError>,
        Ghost<Option<AuthValues>>,
    ))
        ensures
            step_is(res.0, spec_step(self@, provider_id@, model_id@, pair_views(env@), res.1@), self@, provider_id@, model_id@),
            !self@.has_resolver ==> res.1@ is None,
    {
        let ps = match self.catalogue_entry(provider_id) {
            Some(p) => p,
            None => return (Ok(None), Ghost(None)),
        };
        let p = position(&ps.models, model_id);
        proof {
            match p {
                Some(i) => lemma_key_index_is(ps@.models, model_id@, Some(i as int)),
                None => lemma_key_index_is(ps@.models, model_id@, None),
            }
        }
        let m = match p {
            Some(i) => &ps.models[i].1,
            None => return (Ok(None), Ghost(None)),
        };
        let npm: String = match m.npm_override() {
            Some(n) => n.clone(),
            None => match &ps.npm {
                Some(n) => n.clone(),
                None => return (Ok(None), Ghost(None)),
            },
        };
        let method = AuthMethod::ApiKey(ApiKeyAuth { env: copy_texts(&ps.env) });
        let (auth, answer) = self.resolve_auth_required(provider_id, &ps.name, &method, copy_texts(&ps.env), env);
        let auth = match auth {
            Ok(a) => a,
            Err(e) => return (Err(e), answer),
        };
        let options = ProviderOptions { id: provider_id.clone(), api_endpoint: copy_opt(&ps.api), factory_options: None, auth };
        if self.factory_pos(&npm).is_some() {
            let plan = self.make_plan(ProviderRoute::Package(npm), provider_id, model_id, options);
            (Ok(Some(plan)), answer)
        } else {
            (Ok(None), answer)
        }
    }

    /// The direct step (see `direct_step`); the ghost result is what the
    /// resolver supplied.
    fn model_via_direct(&self, provider_id: &String, model_id: &String, env: &Vec<(String, String)>) -> (res: (
        Result<ModelPlan, RegistryError>,
        Ghost<Option<AuthValues>>,
    ))
        ensures
            result_is(res.0, direct_step(self@, provider_id@, pair_views(env@), res.1@), self@, provider_id@, model_id@),
            !self@.has_resolver ==> res.1@ is None,
    {
        if self.provider_pos(provider_id).is_none() {
            return (Err(RegistryError::ProviderNotFound(provider_id.clone())), Ghost(None));
        }
        let rp = self.registration_pos(provider_id);
        proof {
            lemma_key_index(self@.registrations, provider_id@);
        }
        let ps = self.catalogue_entry(provider_id);
        let method = match rp {
            Some(k) => self.registrations[k].auth_method.copy(),
            None => {
                let env_names = match ps {
                    Some(p) => copy_texts(&p.env),
                    None => {
                        let e: Vec<String> = Vec::new();
                        assert(texts(e@) =~= Seq::<Seq<char>>::empty());
                        e
                    },
                };
                AuthMethod::ApiKey(ApiKeyAuth { env: env_names })
            },
        };
        let human = match rp {
            Some(k) => self.registrations[k].name.clone(),
            None => match ps {
                Some(p) => p.name.clone(),
                None => provider_id.clone(),
            },
        };
        let candidates = env_candidates_for_auth(&method);
        let (auth, answer) = self.resolve_auth_required(provider_id, &human, &method, candidates, env);
        let auth = match auth {
            Ok(a) => a,
            Err(e) => return (Err(e), answer),
        };
        let api_endpoint = match rp {
            Some(k) => match &self.registrations[k].api_endpoint {
                Some(e) => Some(e.clone()),
                None => match ps {
                    Some(p) => copy_opt(&p.api),
                    None => None,
                },
            },
            None => match ps {
                Some(p) => copy_opt(&p.api),
                None => None,
            },
        };
        let factory_options = match rp {
            Some(k) => copy_opt(&self.registrations[k].factory_options),
            None => None,
        };
        let options = ProviderOptions { id: provider_id.clone(), api_endpoint, factory_options, auth };
        let plan = self.make_plan(ProviderRoute::Direct, provider_id, model_id, options);
        (Ok(plan), answer)
    }

    /// How to obtain a model of a provider: through its registration, else
    /// the catalogue, else its direct registration (see `model_outcome`).
    /// `env` is the process environment, read for API keys.
    ///
    /// What an auth resolver supplies, and what a registration's loader
    /// gives, is not stated; without either, the outcome is exact.
    pub fn model(&self, provider: &str, model_id: &str, env: &Vec<(String, String)>) -> (r: Result<ModelPlan, RegistryError>)
        ensures
            exists|loaded: Option<Seq<ModelSpecView>>, a1: Option<AuthValues>, a2: Option<AuthValues>, a3: Option<AuthValues>|
                result_is(r, model_outcome(self@, provider@, model_id@, pair_views(env@), loaded, a1, a2, a3), self@, provider@, model_id@),
            !self@.has_resolver && !loads_dynamically(self@, provider@) ==> result_is(
                r,
                model_outcome(self@, provider@, model_id@, pair_views(env@), None, None, None, None),
                self@,
                provider@,
                model_id@,
            ),
    {
        let id = provider.to_owned();
        let mid = model_id.to_owned();
        let (res1, loaded, a1) = self.model_via_registered(&id, &mid, env);
        match res1 {
            Ok(Some(plan)) => {
                assert(result_is(Ok(plan), model_outcome(self@, provider@, model_id@, pair_views(env@), loaded@, a1@, None, None), self@, provider@, model_id@));
                return Ok(plan);
            },
            Err(e) => {
                assert(result_is(Err(e), model_outcome(self@, provider@, model_id@, pair_views(env@), loaded@, a1@, None, None), self@, provider@, model_id@));
                return Err(e);
            },
            Ok(None) => {},
        }
        let (res2, a2) = self.model_via_spec(&id, &mid, env);
        match res2 {
            Ok(Some(plan)) => {
                assert(result_is(Ok(plan), model_outcome(self@, provider@, model_id@, pair_views(env@), loaded@, a1@, a2@, None), self@, provider@, model_id@));
                return Ok(plan);
            },
            Err(e) => {
                assert(result_is(Err(e), model_outcome(self@, provider@, model_id@, pair_views(env@), loaded@, a1@, a2@, None), self@, provider@, model_id@));
                return Err(e);
            },
            Ok(None) => {},
        }
        let (res3, a3) = self.model_via_direct(&id, &mid, env);
        assert(result_is(res3, model_outcome(self@, provider@, model_id@, pair_views(env@), loaded@, a1@, a2@, a3@), self@, provider@, model_id@));
        res3
    }
}

/// The instances of a factory with the provider's entry set to `sig`.
pub open spec fn put_instance(inst: Seq<(Seq<char>, Seq<char>)>, id: Seq<char>, sig: Seq<char>) -> Seq<(Seq<char>, Seq<char>)> {
    match key_index(inst, id) {
        Some(j) => inst.update(j, (id, sig)),
        None => inst.push((id, sig)),
    }
}

/// The registry after recording an instance built with options of
/// signature `sig` for the route's factory and the provider (nothing
/// changes where the route's factory is not registered).
pub open spec fn recorded(r: RegistryView, route: RouteView, id: Seq<char>, sig: Seq<char>) -> RegistryView {
    match route {
        RouteView::Package(n) => match key_index(r.factories, n) {
            Some(i) => RegistryView { factories: r.factories.update(i, (n, put_instance(r.factories[i].1, id, sig))), ..r },
            None => r,
        },
        RouteView::Direct => match key_index(r.providers, id) {
            Some(i) => RegistryView { providers: r.providers.update(i, (id, Some(sig))), ..r },
            None => r,
        },
    }
}

fn put_instance_exec(inst: &Vec<(String, String)>, id: &String, sig: &String) -> (r: Vec<(String, String)>)
    ensures
        pair_views(r@) == put_instance(pair_views(inst@), id@, sig@),
{
    let p = position(inst, id);
    proof {
        match p {
            Some(i) => lemma_key_index_is(pair_views(inst@), id@, Some(i as int)),
            None => lemma_key_index_is(pair_views(inst@), id@, None),
        }
    }
    let mut out: Vec<(String, String)> = Vec::new();
    for i in 0..inst.len()
        invariant
            out.len() == i,
            forall|j: int| 0 <= j < i ==> (#[trigger] out@[j]).0@ == inst@[j].0@ && out@[j].1@ == if p == Some(j as usize) {
                sig@
            } else {
                inst@[j].1@
            },
    {
        if p == Some(i) {
            out.push((inst[i].0.clone(), sig.clone()));
        } else {
            out.push((inst[i].0.clone(), inst[i].1.clone()));
        }
    }
    match p {
        Some(_) => {
            assert(pair_views(out@) =~= put_instance(pair_views(inst@), id@, sig@));
        },
        None => {
            out.push((id.clone(), sig.clone()));
            assert(pair_views(out@) =~= put_instance(pair_views(inst@), id@, sig@));
        },
    }
    out
}

impl Registry {
    /// Records that the plan's instance was built: later plans for the same
    /// factory, provider and signature reuse it.
    pub fn record_instance(&mut self, plan: &ModelPlan)
        ensures
            final(self)@ == recorded(old(self)@, route_view(plan.route), plan.provider_id@, plan.signature@),
    {
        match &plan.route {
            ProviderRoute::Package(n) => {
                match self.factory_pos(n) {
                    Some(k) => {
                        proof {
                            lemma_key_index(old(self)@.factories, n@);
                        }
                        let inst = put_instance_exec(&self.factories[k].1, &plan.provider_id, &plan.signature);
                        let name = self.factories[k].0.clone();
                        self.factories.set(k, (name, inst));
                        assert(factory_views(self.factories@) =~= recorded(old(self)@, route_view(plan.route), plan.provider_id@, plan.signature@).factories);
                    },
                    None => {},
                }
            },
            ProviderRoute::Direct => {
                match self.provider_pos(&plan.provider_id) {
                    Some(k) => {
                        proof {
                            lemma_key_index(old(self)@.providers, plan.provider_id@);
                        }
                        self.providers.set(k, (plan.provider_id.clone(), Some(plan.signature.clone())));
                        assert(provider_views(self.providers@) =~= recorded(old(self)@, route_view(plan.route), plan.provider_id@, plan.signature@).providers);
                    },
                    None => {},
                }
            },
        }
    }

    /// Parses `provider:model` (split at the first `:`) and plans that model
    /// as `model` does.
    pub fn model_from_string(&self, specifier: &str, env: &Vec<(String, String)>) -> (r: Result<ModelPlan, RegistryError>)
        ensures
            match find_char(specifier@, ':') {
                Some(i) => {
                    let provider = specifier@.take(i as int);
                    let model = specifier@.skip(i as int + 1);
                    &&& exists|loaded: Option<Seq<ModelSpecView>>, a1: Option<AuthValues>, a2: Option<AuthValues>, a3: Option<AuthValues>|
                        result_is(r, model_outcome(self@, provider, model, pair_views(env@), loaded, a1, a2, a3), self@, provider, model)
                    &&& !self@.has_resolver && !loads_dynamically(self@, provider) ==> result_is(
                        r,
                        model_outcome(self@, provider, model, pair_views(env@), None, None, None, None),
                        self@,
                        provider,
                        model,
                    )
                },
                None => r matches Err(RegistryError::ProviderNotFound(msg)) && msg@ == "invalid model specifier '"@ + specifier@
                    + "', expected 'provider:model'"@,
            },
    {
        let cs = to_chars(specifier);
        match find_first(&cs, ':') {
            Some(i) => {
                let provider = string_from_range(cs.as_slice(), 0, i);
                let model = string_from_range(cs.as_slice(), i + 1, cs.len());
                assert(provider@ == specifier@.take(i as int));
                assert(model@ == specifier@.skip(i + 1));
                self.model(provider.as_str(), model.as_str(), env)
            },
            None => {
                let mut msg = String::new();
                push_str(&mut msg, "invalid model specifier '");
                push_str(&mut msg, specifier);
                push_str(&mut msg, "', expected 'provider:model'");
                Err(RegistryError::ProviderNotFound(msg))
            },
        }
    }
}

// ---------------------------------------------------------------------------
// Laws
// ---------------------------------------------------------------------------

/// Replacing the value under an existing key keeps every key where it was.
pub proof fn lemma_same_keys<V>(s: Seq<(Seq<char>, V)>, i: int, v: V, k: Seq<char>)
    requires
        0 <= i < s.len(),
    ensures
        key_index(s.update(i, (s[i].0, v)), k) == key_index(s, k),
{
    let t = s.update(i, (s[i].0, v));
    lemma_key_index(s, k);
    match key_index(s, k) {
        Some(x) => {
            assert forall|j: int| 0 <= j < x implies (#[trigger] t[j]).0 != k by {
                assert(s[j].0 != k);
            }
            lemma_key_index_is(t, k, Some(x));
        },
        None => {
            assert forall|j: int| 0 <= j < t.len() implies (#[trigger] t[j]).0 != k by {
                assert(s[j].0 != k);
            }
            lemma_key_index_is(t, k, None);
        },
    }
}

/// After an instance is recorded for a registered factory (or direct
/// provider), a plan with the same route, provider and signature reuses it.
pub proof fn law_recorded_instance_is_reused(r: RegistryView, route: RouteView, id: Seq<char>, sig: Seq<char>)
    requires
        match route {
            RouteView::Package(n) => has_factory(r, n),
            RouteView::Direct => is_direct(r, id),
        },
    ensures
        is_cached(recorded(r, route, id, sig), route, id, sig),
{
    match route {
        RouteView::Package(n) => {
            lemma_key_index(r.factories, n);
            let i = key_index(r.factories, n)->0;
            let inst = put_instance(r.factories[i].1, id, sig);
            lemma_same_keys(r.factories, i, inst, n);
            lemma_key_index(r.factories[i].1, id);
            match key_index(r.factories[i].1, id) {
                Some(j) => lemma_same_keys(r.factories[i].1, j, sig, id),
                None => {
                    let old_inst = r.factories[i].1;
                    assert forall|x: int| 0 <= x < old_inst.len() implies (#[trigger] inst[x]).0 != id by {
                        assert(inst[x] == old_inst[x]);
                    }
                    lemma_key_index_is(inst, id, Some(old_inst.len() as int));
                },
            }
        },
        RouteView::Direct => {
            lemma_key_index(r.providers, id);
            let i = key_index(r.providers, id)->0;
            lemma_same_keys(r.providers, i, Some(sig), id);
        },
    }
}

/// Recording an instance changes no routing decision: model resolution
/// reaches the same outcome before and after.
pub proof fn law_recording_keeps_routing(
    r: RegistryView,
    route: RouteView,
    id: Seq<char>,
    sig: Seq<char>,
    provider: Seq<char>,
    model: Seq<char>,
    env: Seq<(Seq<char>, Seq<char>)>,
    loaded: Option<Seq<ModelSpecView>>,
    a1: Option<AuthValues>,
    a2: Option<AuthValues>,
    a3: Option<AuthValues>,
)
    ensures
        model_outcome(recorded(r, route, id, sig), provider, model, env, loaded, a1, a2, a3) == model_outcome(
            r,
            provider,
            model,
            env,
            loaded,
            a1,
            a2,
            a3,
        ),
{
    let t = recorded(r, route, id, sig);
    assert forall|k: Seq<char>| has_factory(t, k) == has_factory(r, k) && is_direct(t, k) == is_direct(r, k) by {
        match route {
            RouteView::Package(n) => match key_index(r.factories, n) {
                Some(i) => {
                    lemma_key_index(r.factories, n);
                    lemma_same_keys(r.factories, i, put_instance(r.factories[i].1, id, sig), k);
                },
                None => {},
            },
            RouteView::Direct => match key_index(r.providers, id) {
                Some(i) => {
                    lemma_key_index(r.providers, id);
                    lemma_same_keys(r.providers, i, Some(sig), k);
                },
                None => {},
            },
        }
    }
    assert(registration(t, provider) == registration(r, provider));
    assert(catalogue(t, provider) == catalogue(r, provider));
    assert(served_registered(t, provider, registration(r, provider)->0) == served_registered(r, provider, registration(r, provider)->0));
}

/// An entry put under a key is the one found there.
pub proof fn lemma_put_key<V>(s: Seq<(Seq<char>, V)>, k: Seq<char>, v: V)
    ensures
        lookup_key(put_key(s, k, v), k) == Some(v),
{
    lemma_key_index(s, k);
    let t = put_key(s, k, v);
    match key_index(s, k) {
        Some(i) => {
            assert forall|j: int| 0 <= j < i implies (#[trigger] t[j]).0 != k by {
                assert(t[j] == s[j]);
            }
            lemma_key_index_is(t, k, Some(i));
        },
        None => {
            assert forall|j: int| 0 <= j < s.len() implies (#[trigger] t[j]).0 != k by {
                assert(t[j] == s[j]);
            }
            lemma_key_index_is(t, k, Some(s.len() as int));
        },
    }
}

/// A provider registered directly is known, and served by its own factory.
pub proof fn law_added_provider_is_served(r: RegistryView, name: Seq<char>)
    ensures
        is_known(with_provider(r, name), name),
        compatible(with_provider(r, name), name),
{
    lemma_put_key(r.providers, name, None::<Seq<char>>);
}

/// A factory registered for a package that a registration names makes the
/// registered provider compatible.
pub proof fn law_added_factory_serves_registration(r: RegistryView, npm: Seq<char>, id: Seq<char>, i: int)
    requires
        registration(r, id) matches Some(reg) && 0 <= i < reg.npm_packages.len() && reg.npm_packages[i] == npm,
    ensures
        compatible(with_factory(r, npm), id),
{
    lemma_put_key(r.factories, npm, Seq::<(Seq<char>, Seq<char>)>::empty());
    let reg = registration(r, id)->0;
    assert(registration(with_factory(r, npm), id) == Some(reg));
    assert(has_factory(with_factory(r, npm), reg.npm_packages[i]));
}

/// `has_provider` agrees with the listing of known providers: a provider is
/// there exactly when it is listed as compatible.
pub proof fn law_has_provider_matches_listing(r: RegistryView, listed: Seq<KnownProvider>, env: Seq<(Seq<char>, Seq<char>)>, x: Seq<char>)
    requires
        forall|y: Seq<char>| known_ids(listed).contains(y) <==> is_known(r, y),
        forall|i: int| 0 <= i < listed.len() ==> known_entry(r, #[trigger] listed[i], env),
    ensures
        (is_known(r, x) && compatible(r, x)) <==> exists|i: int| 0 <= i < listed.len() && (#[trigger] listed[i]).id@ == x && listed[i].compatible,
{
    if is_known(r, x) && compatible(r, x) {
        assert(known_ids(listed).contains(x));
        let i = choose|i: int| 0 <= i < known_ids(listed).len() && known_ids(listed)[i] == x;
        assert(listed[i].id@ == x);
        assert(known_entry(r, listed[i], env));
    }
    if exists|i: int| 0 <= i < listed.len() && (#[trigger] listed[i]).id@ == x && listed[i].compatible {
        let i = choose|i: int| 0 <= i < listed.len() && (#[trigger] listed[i]).id@ == x && listed[i].compatible;
        assert(known_ids(listed)[i] == x);
        assert(known_ids(listed).contains(x));
        assert(known_entry(r, listed[i], env));
    }
}

} // verus!
