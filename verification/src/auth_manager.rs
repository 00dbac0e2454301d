//! Stored provider credentials, the in-memory cache in front of the store, and
//! the decisions of resolving, saving and refreshing credentials. Reading the
//! environment, the store and the network is the caller's part: it hands the
//! results to these functions.

use vstd::prelude::*;

use crate::auth::{kind_of, pair_views, AuthMethod, AuthRequest, OAuthPkceAuth, ResolvedAuth};
use crate::oauth::{begin_pkce, AuthError, OAuthCredential, OAuthStart};
use crate::text::{trim, trim_str};

verus! {

/// A credential as the store keeps it.
#[derive(Debug)]
pub enum StoredCredential {
    ApiKey { api_key: String },
    OAuthPkce {
        access_token: String,
        refresh_token: String,
        expires_at_ms: u64,
        metadata: Vec<(String, String)>,
    },
}

fn copy_pairs(v: &Vec<(String, String)>) -> (r: Vec<(String, String)>)
    ensures
        r@ == v@,
{
    let mut r: Vec<(String, String)> = Vec::new();
    for i in 0..v.len()
        invariant
            r@ == v@.take(i as int),
    {
        r.push((v[i].0.clone(), v[i].1.clone()));
        assert(r@ =~= v@.take(i + 1));
    }
    assert(v@.take(v.len() as int) == v@);
    r
}

/// The two credentials hold the same values.
pub open spec fn same_credential(a: StoredCredential, b: StoredCredential) -> bool {
    match (a, b) {
        (StoredCredential::ApiKey { api_key: x }, StoredCredential::ApiKey { api_key: y }) => x@ == y@,
        (
            StoredCredential::OAuthPkce { access_token: a1, refresh_token: r1, expires_at_ms: e1, metadata: m1 },
            StoredCredential::OAuthPkce { access_token: a2, refresh_token: r2, expires_at_ms: e2, metadata: m2 },
        ) => a1@ == a2@ && r1@ == r2@ && e1 == e2 && pair_views(m1@) == pair_views(m2@),
        _ => false,
    }
}

/// The cache holds, for `id`, a credential with the same values as `expected`.
pub open spec fn holds(found: Option<StoredCredential>, expected: Option<StoredCredential>) -> bool {
    match (found, expected) {
        (Some(a), Some(b)) => same_credential(a, b),
        (None, None) => true,
        _ => false,
    }
}

impl StoredCredential {
    /// A copy with the same values.
    pub fn copy(&self) -> (c: StoredCredential)
        ensures
            same_credential(c, *self),
    {
        match self {
            StoredCredential::ApiKey { api_key } => {
                let k: String = api_key.clone();
                StoredCredential::ApiKey { api_key: k }
            },
            StoredCredential::OAuthPkce { access_token, refresh_token, expires_at_ms, metadata } => {
                StoredCredential::OAuthPkce {
                    access_token: access_token.clone(),
                    refresh_token: refresh_token.clone(),
                    expires_at_ms: *expires_at_ms,
                    metadata: copy_pairs(metadata),
                }
            },
        }
    }
}

// ---------------------------------------------------------------------------
// Token requests and responses
// ---------------------------------------------------------------------------

/// The fields of a token endpoint's answer.
pub struct OAuthTokenResponse {
    pub access_token: Option<String>,
    pub refresh_token: Option<String>,
    pub expires_in: Option<u64>,
}

/// The form after setting `k` to `v`: the value of an existing key is
/// replaced in place, a new key goes last.
pub open spec fn form_set(f: Seq<(Seq<char>, Seq<char>)>, k: Seq<char>, v: Seq<char>) -> Seq<(Seq<char>, Seq<char>)> {
    if exists|i: int| 0 <= i < f.len() && (#[trigger] f[i]).0 == k {
        let i = choose|i: int| 0 <= i < f.len() && (#[trigger] f[i]).0 == k;
        f.update(i, (k, v))
    } else {
        f.push((k, v))
    }
}

/// Sets a form field, keeping keys distinct.
pub fn form_insert(form: &mut Vec<(String, String)>, k: String, v: String)
    requires
        crate::auth::keys_distinct(pair_views(old(form)@)),
    ensures
        pair_views(final(form)@) == form_set(pair_views(old(form)@), k@, v@),
        crate::auth::keys_distinct(pair_views(final(form)@)),
{
    let ghost f = pair_views(form@);
    let n = form.len();
    for i in 0..n
        invariant
            n == form.len(),
            f == pair_views(old(form)@),
            pair_views(form@) == f,
            crate::auth::keys_distinct(f),
            forall|j: int| 0 <= j < i ==> (#[trigger] f[j]).0 != k@,
    {
        if form[i].0 == k {
            let ghost kk = k@;
            let ghost vv = v@;
            form.set(i, (k, v));
            proof {
                assert(f[i as int].0 == kk);
                let w = choose|w: int| 0 <= w < f.len() && (#[trigger] f[w]).0 == k@;
                assert(w == i) by {
                    if w != i {
                        assert(f[w].0 == f[i as int].0);
                    }
                }
                assert(pair_views(form@) =~= f.update(i as int, (kk, vv)));
                assert(form_set(f, kk, vv) == f.update(i as int, (kk, vv)));
            }
            return ;
        }
    }
    let ghost old_form = form@;
    form.push((k, v));
    assert(pair_views(form@) =~= f.push((k@, v@)));
}

/// The form fields of a token request: the fixed ones in order, then the
/// provider's extras (which may override them).
pub open spec fn token_form(fixed: Seq<(Seq<char>, Seq<char>)>, extras: Seq<(Seq<char>, Seq<char>)>) -> Seq<(Seq<char>, Seq<char>)>
    decreases extras.len(),
{
    if extras.len() == 0 {
        fixed
    } else {
        form_set(token_form(fixed, extras.drop_last()), extras.last().0, extras.last().1)
    }
}

fn form_with_extras(fixed: Vec<(String, String)>, config: &OAuthPkceAuth) -> (f: Vec<(String, String)>)
    requires
        crate::auth::keys_distinct(pair_views(fixed@)),
    ensures
        pair_views(f@) == token_form(pair_views(fixed@), pair_views(config.token_params@)),
{
    let mut form = fixed;
    let ghost start = pair_views(form@);
    for i in 0..config.token_params.len()
        invariant
            crate::auth::keys_distinct(pair_views(form@)),
            pair_views(form@) == token_form(start, pair_views(config.token_params@.take(i as int))),
    {
        let k = config.token_params[i].0.clone();
        let v = config.token_params[i].1.clone();
        form_insert(&mut form, k, v);
        proof {
            let e = pair_views(config.token_params@.take(i + 1));
            assert(e.drop_last() =~= pair_views(config.token_params@.take(i as int)));
            assert(e.last() == (k@, v@));
        }
    }
    assert(config.token_params@.take(config.token_params.len() as int) == config.token_params@);
    form
}

pub open spec fn exchange_fixed(config: OAuthPkceAuth, code: Seq<char>, verifier: Seq<char>) -> Seq<(Seq<char>, Seq<char>)> {
    seq![
        ("grant_type"@, "authorization_code"@),
        ("client_id"@, config.client_id@),
        ("code"@, code),
        ("code_verifier"@, verifier),
        ("redirect_uri"@, config.redirect_url@),
    ]
}

/// The form that exchanges an authorization code for tokens.
pub fn exchange_form(config: &OAuthPkceAuth, code: &str, verifier: &str) -> (f: Vec<(String, String)>)
    ensures
        pair_views(f@) == token_form(exchange_fixed(*config, code@, verifier@), pair_views(config.token_params@)),
{
    proof {
        reveal_strlit("grant_type");
        reveal_strlit("client_id");
        reveal_strlit("code");
        reveal_strlit("code_verifier");
        reveal_strlit("redirect_uri");
    }
    let fixed = vec![
        ("grant_type".to_owned(), "authorization_code".to_owned()),
        ("client_id".to_owned(), config.client_id.clone()),
        ("code".to_owned(), code.to_owned()),
        ("code_verifier".to_owned(), verifier.to_owned()),
        ("redirect_uri".to_owned(), config.redirect_url.clone()),
    ];
    assert(pair_views(fixed@) =~= exchange_fixed(*config, code@, verifier@));
    assert(crate::auth::keys_distinct(pair_views(fixed@))) by {
        let p = pair_views(fixed@);
        assert forall|i: int, j: int| 0 <= i < j < p.len() implies (#[trigger] p[i]).0 != (#[trigger] p[j]).0 by {
            assert(p[i].0.len() != p[j].0.len() || p[i].0[0] != p[j].0[0] || p[i].0[4] != p[j].0[4]);
        }
    }
    form_with_extras(fixed, config)
}

pub open spec fn refresh_fixed(config: OAuthPkceAuth, refresh_token: Seq<char>) -> Seq<(Seq<char>, Seq<char>)> {
    seq![
        ("grant_type"@, "refresh_token"@),
        ("client_id"@, config.client_id@),
        ("refresh_token"@, refresh_token),
    ]
}

/// The form that refreshes an access token.
pub fn refresh_form(config: &OAuthPkceAuth, refresh_token: &str) -> (f: Vec<(String, String)>)
    ensures
        pair_views(f@) == token_form(refresh_fixed(*config, refresh_token@), pair_views(config.token_params@)),
{
    proof {
        reveal_strlit("grant_type");
        reveal_strlit("client_id");
        reveal_strlit("refresh_token");
    }
    let fixed = vec![
        ("grant_type".to_owned(), "refresh_token".to_owned()),
        ("client_id".to_owned(), config.client_id.clone()),
        ("refresh_token".to_owned(), refresh_token.to_owned()),
    ];
    assert(pair_views(fixed@) =~= refresh_fixed(*config, refresh_token@));
    assert(crate::auth::keys_distinct(pair_views(fixed@))) by {
        let p = pair_views(fixed@);
        assert forall|i: int, j: int| 0 <= i < j < p.len() implies (#[trigger] p[i]).0 != (#[trigger] p[j]).0 by {
            assert(p[i].0.len() != p[j].0.len() || p[i].0[0] != p[j].0[0]);
        }
    }
    form_with_extras(fixed, config)
}

/// When a token given `expires_in` seconds at `now_ms` expires, saturating.
pub open spec fn expiry_ms(now_ms: u64, expires_in: u64) -> u64 {
    let ms = if expires_in * 1000 > u64::MAX {
        u64::MAX as int
    } else {
        expires_in * 1000
    };
    if now_ms + ms > u64::MAX {
        u64::MAX
    } else {
        (now_ms + ms) as u64
    }
}

fn expiry(now_ms: u64, expires_in: u64) -> (t: u64)
    ensures
        t == expiry_ms(now_ms, expires_in),
{
    let ms: u64 = if expires_in > u64::MAX / 1000 {
        u64::MAX
    } else {
        expires_in * 1000
    };
    now_ms.saturating_add(ms)
}

/// The credential from a code exchange's answer, which must carry all three fields.
pub fn credential_from_exchange(body: OAuthTokenResponse, now_ms: u64) -> (r: Result<OAuthCredential, AuthError>)
    ensures
        match (body.access_token, body.refresh_token, body.expires_in) {
            (Some(a), Some(rt), Some(e)) => r matches Ok(c) && c.access_token == a && c.refresh_token == rt
                && c.expires_at_ms == expiry_ms(now_ms, e),
            _ => r matches Err(AuthError::InvalidOAuthTokenResponse),
        },
{
    match (body.access_token, body.refresh_token, body.expires_in) {
        (Some(access_token), Some(refresh_token), Some(expires_in)) => Ok(
            OAuthCredential { access_token, refresh_token, expires_at_ms: expiry(now_ms, expires_in) },
        ),
        _ => Err(AuthError::InvalidOAuthTokenResponse),
    }
}

/// The credential from a refresh's answer: the refresh token stays when the
/// answer carries no new one.
pub fn credential_from_refresh(body: OAuthTokenResponse, refresh_token: &str, now_ms: u64) -> (r: Result<OAuthCredential, AuthError>)
    ensures
        match (body.access_token, body.expires_in) {
            (Some(a), Some(e)) => r matches Ok(c) && c.access_token == a && c.expires_at_ms == expiry_ms(now_ms, e)
                && c.refresh_token@ == (match body.refresh_token {
                    Some(t) => t@,
                    None => refresh_token@,
                }),
            _ => r matches Err(AuthError::InvalidOAuthTokenResponse),
        },
{
    let rt = match body.refresh_token {
        Some(t) => t,
        None => refresh_token.to_owned(),
    };
    match (body.access_token, body.expires_in) {
        (Some(access_token), Some(expires_in)) => Ok(
            OAuthCredential { access_token, refresh_token: rt, expires_at_ms: expiry(now_ms, expires_in) },
        ),
        _ => Err(AuthError::InvalidOAuthTokenResponse),
    }
}

// ---------------------------------------------------------------------------
// Resolving credentials
// ---------------------------------------------------------------------------

/// The first environment value that is set and not blank.
pub open spec fn env_key(values: Seq<Option<String>>) -> Option<Seq<char>>
    decreases values.len(),
{
    if values.len() == 0 {
        None
    } else {
        match values[0] {
            Some(v) => if trim(v@).len() > 0 {
                Some(v@)
            } else {
                env_key(values.drop_first())
            },
            None => env_key(values.drop_first()),
        }
    }
}

/// An API key from the environment: `env_values` holds, for each variable the
/// request names, its value if it is set.
pub fn resolve_from_env(request: &AuthRequest, env_values: &Vec<Option<String>>) -> (r: Option<ResolvedAuth>)
    ensures
        match request.auth_method {
            AuthMethod::ApiKey(_) => match env_key(env_values@) {
                Some(k) => r matches Some(a) && a.method@ == "api_key"@ && pair_views(a.values@) == seq![("api_key"@, k)],
                None => r is None,
            },
            AuthMethod::OAuthPkce(_) => r is None,
        },
{
    match &request.auth_method {
        AuthMethod::ApiKey(_) => {
            assert(env_values@.skip(0) == env_values@);
            for i in 0..env_values.len()
                invariant
                    request.auth_method is ApiKey,
                    env_key(env_values@) == env_key(env_values@.skip(i as int)),
            {
                assert(env_values@.skip(i as int).drop_first() == env_values@.skip(i + 1));
                assert(env_values@.skip(i as int)[0] == env_values@[i as int]);
                match &env_values[i] {
                    Some(v) => {
                        let t = trim_str(v.as_str());
                        if !t.as_str().is_empty() {
                            let val: String = v.clone();
                            assert(val@ == v@);
                            return Some(ResolvedAuth::api_key(val));
                        }
                    },
                    None => {},
                }
            }
            assert(env_values@.skip(env_values.len() as int) =~= Seq::<Option<String>>::empty());
            None
        },
        AuthMethod::OAuthPkce(_) => None,
    }
}

/// What a stored credential resolves to for an auth method: an API key for
/// the API key method, the access token for OAuth; nothing on a mismatch.
pub fn credential_resolution(method: &AuthMethod, credential: Option<StoredCredential>) -> (r: Option<ResolvedAuth>)
    ensures
        match (*method, credential) {
            (AuthMethod::ApiKey(_), Some(StoredCredential::ApiKey { api_key })) => r matches Some(a)
                && a.method@ == "api_key"@ && pair_views(a.values@) == seq![("api_key"@, api_key@)],
            (AuthMethod::OAuthPkce(_), Some(StoredCredential::OAuthPkce { access_token, .. })) => r matches Some(a)
                && a.method@ == "oauth_pkce"@ && pair_views(a.values@) == seq![("access_token"@, access_token@)],
            _ => r is None,
        },
{
    match (method, credential) {
        (AuthMethod::ApiKey(_), Some(StoredCredential::ApiKey { api_key })) => Some(ResolvedAuth::api_key(api_key)),
        (AuthMethod::OAuthPkce(_), Some(StoredCredential::OAuthPkce { access_token, .. })) => Some(
            ResolvedAuth::bearer(access_token),
        ),
        _ => None,
    }
}

/// What to do about a stored OAuth credential at `now_ms`.
pub enum RefreshStep {
    /// Nothing is stored for OAuth.
    NoCredential,
    /// The access token is still valid.
    Valid(ResolvedAuth),
    /// The token expired: refresh it with this refresh token, keeping the metadata.
    Refresh { refresh_token: String, metadata: Vec<(String, String)> },
}

/// Whether a stored OAuth credential can be used as is or must be refreshed.
pub fn refresh_step(stored: Option<StoredCredential>, now_ms: u64) -> (r: RefreshStep)
    ensures
        match stored {
            Some(StoredCredential::OAuthPkce { access_token, refresh_token, expires_at_ms, metadata }) => if expires_at_ms > now_ms {
                r matches RefreshStep::Valid(a) && a.method@ == "oauth_pkce"@ && pair_views(a.values@) == seq![("access_token"@, access_token@)]
            } else {
                r matches RefreshStep::Refresh { refresh_token: t, metadata: m } && t == refresh_token && m == metadata
            },
            _ => r is NoCredential,
        },
{
    match stored {
        Some(StoredCredential::OAuthPkce { access_token, refresh_token, expires_at_ms, metadata }) => {
            if expires_at_ms > now_ms {
                RefreshStep::Valid(ResolvedAuth::bearer(access_token))
            } else {
                RefreshStep::Refresh { refresh_token, metadata }
            }
        },
        _ => RefreshStep::NoCredential,
    }
}

// ---------------------------------------------------------------------------
// The manager and its cache
// ---------------------------------------------------------------------------

/// The cached credential of a provider: the first entry under its id.
pub open spec fn cache_lookup(cache: Seq<(String, StoredCredential)>, id: Seq<char>) -> Option<StoredCredential>
    decreases cache.len(),
{
    if cache.len() == 0 {
        None
    } else if cache[0].0@ == id {
        Some(cache[0].1)
    } else {
        cache_lookup(cache.drop_first(), id)
    }
}

/// Resolves, saves and refreshes provider credentials for one keyring
/// service, caching what it saved or loaded.
pub struct AuthManager {
    service: String,
    cache: Vec<(String, StoredCredential)>,
}

impl AuthManager {
    /// The keyring service the manager stores under.
    pub closed spec fn service_of(&self) -> String {
        self.service
    }

    /// The credential cached for `id`.
    pub closed spec fn cached(&self, id: Seq<char>) -> Option<StoredCredential> {
        cache_lookup(self.cache@, id)
    }

    /// A manager for `service_name` with nothing cached.
    pub fn new(service_name: String) -> (m: AuthManager)
        ensures
            m.service_of() == service_name,
            forall|id: Seq<char>| m.cached(id) is None,
    {
        AuthManager { service: service_name, cache: Vec::new() }
    }

    /// The keyring service the manager stores under.
    pub fn service(&self) -> (s: &str)
        ensures
            s@ == self.service_of()@,
    {
        self.service.as_str()
    }

    /// The credential cached for `provider_id`.
    pub fn cache_get(&self, provider_id: &str) -> (r: Option<StoredCredential>)
        ensures
            holds(r, self.cached(provider_id@)),
    {
        let id = provider_id.to_owned();
        assert(self.cache@.skip(0) == self.cache@);
        for i in 0..self.cache.len()
            invariant
                id@ == provider_id@,
                cache_lookup(self.cache@, provider_id@) == cache_lookup(self.cache@.skip(i as int), provider_id@),
        {
            assert(self.cache@.skip(i as int).drop_first() == self.cache@.skip(i + 1));
            if self.cache[i].0 == id {
                return Some(self.cache[i].1.copy());
            }
        }
        assert(self.cache@.skip(self.cache.len() as int) =~= Seq::<(String, StoredCredential)>::empty());
        None
    }

    /// Caches `credential` for `provider_id`.
    pub fn cache_set(&mut self, provider_id: &str, credential: StoredCredential)
        ensures
            final(self).service_of() == old(self).service_of(),
            final(self).cached(provider_id@) == Some(credential),
            forall|other: Seq<char>| other != provider_id@ ==> final(self).cached(other) == old(self).cached(other),
    {
        let ghost old_cache = self.cache@;
        self.cache.insert(0, (provider_id.to_owned(), credential));
        proof {
            assert(self.cache@.drop_first() =~= old_cache);
        }
    }

    /// The credential for `provider_id` after a lookup that missed the cache:
    /// what the store gave (`loaded`) is cached and returned.
    pub fn remember_loaded(&mut self, provider_id: &str, loaded: Option<StoredCredential>) -> (r: Option<StoredCredential>)
        ensures
            r == loaded,
            final(self).service_of() == old(self).service_of(),
            loaded is Some ==> holds(final(self).cached(provider_id@), loaded),
            forall|other: Seq<char>| (other != provider_id@ || loaded is None) ==> final(self).cached(other) == old(self).cached(other),
    {
        match loaded {
            Some(c) => {
                let copy = c.copy();
                self.cache_set(provider_id, copy);
                Some(c)
            },
            None => None,
        }
    }

    /// Records an API key the store saved (or reports why it was not saved);
    /// a saved key is cached.
    pub fn store_api_key(&mut self, provider_id: &str, api_key: String, saved: Result<(), AuthError>) -> (r: Result<ResolvedAuth, AuthError>)
        ensures
            final(self).service_of() == old(self).service_of(),
            match saved {
                Ok(()) => {
                    &&& r matches Ok(a) && a.method@ == "api_key"@ && pair_views(a.values@) == seq![("api_key"@, api_key@)]
                    &&& final(self).cached(provider_id@) == Some(StoredCredential::ApiKey { api_key })
                    &&& forall|other: Seq<char>| other != provider_id@ ==> final(self).cached(other) == old(self).cached(other)
                },
                Err(e) => r == Err::<ResolvedAuth, AuthError>(e) && forall|id: Seq<char>| final(self).cached(id) == old(self).cached(id),
            },
    {
        match saved {
            Ok(()) => {
                self.cache_set(provider_id, StoredCredential::ApiKey { api_key: api_key.clone() });
                Ok(ResolvedAuth::api_key(api_key))
            },
            Err(e) => Err(e),
        }
    }

    /// Starts an OAuth PKCE flow for a provider: a fresh verifier and state,
    /// and the authorization URL carrying the verifier's challenge and the
    /// state. Nothing is cached.
    pub fn begin_oauth(&self, _provider_id: &str, config: &OAuthPkceAuth) -> (r: Result<OAuthStart, AuthError>)
        ensures
            match r {
                Ok(s) => {
                    &&& exists|b: Seq<u8>| b.len() == 32 && s.verifier@ == #[trigger] crate::oauth::base64_url_nopad(b)
                    &&& exists|b: Seq<u8>| b.len() == 16 && s.state@ == #[trigger] crate::oauth::base64_url_nopad(b)
                    &&& crate::oauth::url_with_query(
                        config.authorize_url@,
                        crate::oauth::authorize_pairs(*config, crate::oauth::pkce_challenge(s.verifier@), s.state@),
                    ) == Some(s.authorize_url@)
                },
                Err(e) => {
                    &&& e matches AuthError::InvalidRedirectUrl(u) && u@ == config.authorize_url@
                    &&& exists|v: Seq<char>, st: Seq<char>|
                        #![trigger crate::oauth::authorize_pairs(*config, crate::oauth::pkce_challenge(v), st)]
                        crate::oauth::url_with_query(
                            config.authorize_url@,
                            crate::oauth::authorize_pairs(*config, crate::oauth::pkce_challenge(v), st),
                        ) is None
                },
            },
    {
        begin_pkce(config)
    }

    /// Records OAuth tokens the store saved; saved tokens are cached with no metadata.
    pub fn save_oauth_credential(&mut self, provider_id: &str, credential: OAuthCredential, saved: Result<(), AuthError>) -> (r: Result<ResolvedAuth, AuthError>)
        ensures
            final(self).service_of() == old(self).service_of(),
            match saved {
                Ok(()) => {
                    &&& r matches Ok(a) && a.method@ == "oauth_pkce"@ && pair_views(a.values@) == seq![("access_token"@, credential.access_token@)]
                    &&& final(self).cached(provider_id@) matches Some(StoredCredential::OAuthPkce { access_token, refresh_token, expires_at_ms, metadata })
                        && access_token == credential.access_token && refresh_token == credential.refresh_token
                        && expires_at_ms == credential.expires_at_ms && metadata@.len() == 0
                },
                Err(e) => r == Err::<ResolvedAuth, AuthError>(e) && forall|id: Seq<char>| final(self).cached(id) == old(self).cached(id),
            },
    {
        match saved {
            Ok(()) => {
                let token = credential.access_token.clone();
                let stored = StoredCredential::OAuthPkce {
                    access_token: credential.access_token,
                    refresh_token: credential.refresh_token,
                    expires_at_ms: credential.expires_at_ms,
                    metadata: Vec::new(),
                };
                self.cache_set(provider_id, stored);
                Ok(ResolvedAuth::bearer(token))
            },
            Err(e) => Err(e),
        }
    }

    /// Records refreshed tokens the store saved, keeping the old metadata.
    pub fn apply_refresh(&mut self, provider_id: &str, refreshed: OAuthCredential, metadata: Vec<(String, String)>, saved: Result<(), AuthError>) -> (r: Result<ResolvedAuth, AuthError>)
        ensures
            final(self).service_of() == old(self).service_of(),
            match saved {
                Ok(()) => {
                    &&& r matches Ok(a) && a.method@ == "oauth_pkce"@ && pair_views(a.values@) == seq![("access_token"@, refreshed.access_token@)]
                    &&& final(self).cached(provider_id@) == Some(StoredCredential::OAuthPkce {
                        access_token: refreshed.access_token,
                        refresh_token: refreshed.refresh_token,
                        expires_at_ms: refreshed.expires_at_ms,
                        metadata,
                    })
                },
                Err(e) => r == Err::<ResolvedAuth, AuthError>(e) && forall|id: Seq<char>| final(self).cached(id) == old(self).cached(id),
            },
    {
        match saved {
            Ok(()) => {
                let token = refreshed.access_token.clone();
                let stored = StoredCredential::OAuthPkce {
                    access_token: refreshed.access_token,
                    refresh_token: refreshed.refresh_token,
                    expires_at_ms: refreshed.expires_at_ms,
                    metadata,
                };
                self.cache_set(provider_id, stored);
                Ok(ResolvedAuth::bearer(token))
            },
            Err(e) => Err(e),
        }
    }
}

} // verus!
