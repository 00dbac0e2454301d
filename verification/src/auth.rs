//! How providers authenticate: the declared methods and the resolved
//! credentials handed to provider factories.

use vstd::prelude::*;

use crate::skill::{chars_le, lemma_chars_le_total, lemma_chars_le_trans};
use crate::model_spec::{copy_texts, texts};
use crate::text::{push_char, push_str, to_chars};

verus! {

/// API key auth configuration.
#[derive(Debug, Clone)]
pub struct ApiKeyAuth {
    /// Candidate environment variable names for this API key.
    pub env: Vec<String>,
}

impl Default for ApiKeyAuth {
    fn default() -> (a: ApiKeyAuth)
        ensures
            a.env@.len() == 0,
    {
        ApiKeyAuth { env: Vec::new() }
    }
}

/// OAuth PKCE configuration.
#[derive(Debug, Clone)]
pub struct OAuthPkceAuth {
    pub client_id: String,
    pub authorize_url: String,
    pub token_url: String,
    pub redirect_url: String,
    pub scopes: Vec<String>,
    /// Extra query parameters for the authorization URL.
    pub authorize_params: Vec<(String, String)>,
    /// Extra body parameters for token exchange/refresh.
    pub token_params: Vec<(String, String)>,
}

impl Default for OAuthPkceAuth {
    /// Empty endpoints, no scopes and no extra parameters.
    fn default() -> (a: OAuthPkceAuth)
        ensures
            a.client_id@.len() == 0 && a.authorize_url@.len() == 0 && a.token_url@.len() == 0,
            a.redirect_url@.len() == 0,
            a.scopes@.len() == 0 && a.authorize_params@.len() == 0 && a.token_params@.len() == 0,
    {
        OAuthPkceAuth {
            client_id: String::new(),
            authorize_url: String::new(),
            token_url: String::new(),
            redirect_url: String::new(),
            scopes: Vec::new(),
            authorize_params: Vec::new(),
            token_params: Vec::new(),
        }
    }
}

/// Declarative auth method for a provider.
#[derive(Debug, Clone)]
pub enum AuthMethod {
    /// API key credentials (default).
    ApiKey(ApiKeyAuth),
    /// OAuth authorization code flow with PKCE.
    OAuthPkce(OAuthPkceAuth),
}

pub open spec fn kind_of(m: AuthMethod) -> Seq<char> {
    match m {
        AuthMethod::ApiKey(_) => "api_key"@,
        AuthMethod::OAuthPkce(_) => "oauth_pkce"@,
    }
}

impl AuthMethod {
    /// Stable method identifier (`api_key` or `oauth_pkce`).
    pub fn kind(&self) -> (k: &'static str)
        ensures
            k@ == kind_of(*self),
    {
        match self {
            AuthMethod::ApiKey(_) => "api_key",
            AuthMethod::OAuthPkce(_) => "oauth_pkce",
        }
    }
}

impl Default for AuthMethod {
    fn default() -> (m: AuthMethod)
        ensures
            m matches AuthMethod::ApiKey(a) && a.env@.len() == 0,
    {
        AuthMethod::ApiKey(ApiKeyAuth::default())
    }
}

/// What an OAuth PKCE configuration says, as values.
pub struct OAuthView {
    pub client_id: Seq<char>,
    pub authorize_url: Seq<char>,
    pub token_url: Seq<char>,
    pub redirect_url: Seq<char>,
    pub scopes: Seq<Seq<char>>,
    pub authorize_params: Seq<(Seq<char>, Seq<char>)>,
    pub token_params: Seq<(Seq<char>, Seq<char>)>,
}

/// What an auth method says, as values.
pub enum AuthMethodView {
    ApiKey(Seq<Seq<char>>),
    OAuthPkce(OAuthView),
}

pub open spec fn method_view(m: AuthMethod) -> AuthMethodView {
    match m {
        AuthMethod::ApiKey(a) => AuthMethodView::ApiKey(texts(a.env@)),
        AuthMethod::OAuthPkce(o) => AuthMethodView::OAuthPkce(
            OAuthView {
                client_id: o.client_id@,
                authorize_url: o.authorize_url@,
                token_url: o.token_url@,
                redirect_url: o.redirect_url@,
                scopes: texts(o.scopes@),
                authorize_params: pair_views(o.authorize_params@),
                token_params: pair_views(o.token_params@),
            },
        ),
    }
}

/// The kind identifier of a method view.
pub open spec fn view_kind(m: AuthMethodView) -> Seq<char> {
    match m {
        AuthMethodView::ApiKey(_) => "api_key"@,
        AuthMethodView::OAuthPkce(_) => "oauth_pkce"@,
    }
}

pub(crate) fn copy_pair_list(v: &Vec<(String, String)>) -> (r: Vec<(String, String)>)
    ensures
        r@ == v@,
{
    let mut r: Vec<(String, String)> = Vec::new();
    for i in 0..v.len()
        invariant
            r@ == v@.take(i as int),
    {
        r.push((v[i].0.clone(), v[i].1.clone()));
        assert(r@ =~= v@.take(i + 1));
    }
    assert(v@.take(v.len() as int) == v@);
    r
}

impl AuthMethod {
    /// A copy of the method.
    pub fn copy(&self) -> (r: AuthMethod)
        ensures
            method_view(r) == method_view(*self),
    {
        match self {
            AuthMethod::ApiKey(a) => AuthMethod::ApiKey(ApiKeyAuth { env: copy_texts(&a.env) }),
            AuthMethod::OAuthPkce(o) => AuthMethod::OAuthPkce(
                OAuthPkceAuth {
                    client_id: o.client_id.clone(),
                    authorize_url: o.authorize_url.clone(),
                    token_url: o.token_url.clone(),
                    redirect_url: o.redirect_url.clone(),
                    scopes: copy_texts(&o.scopes),
                    authorize_params: copy_pair_list(&o.authorize_params),
                    token_params: copy_pair_list(&o.token_params),
                },
            ),
        }
    }
}

/// The key/value views of a list of pairs.
pub open spec fn pair_views(v: Seq<(String, String)>) -> Seq<(Seq<char>, Seq<char>)> {
    v.map_values(|p: (String, String)| (p.0@, p.1@))
}

/// The value paired with the first occurrence of `key`.
pub open spec fn lookup(v: Seq<(Seq<char>, Seq<char>)>, key: Seq<char>) -> Option<Seq<char>>
    decreases v.len(),
{
    if v.len() == 0 {
        None
    } else if v[0].0 == key {
        Some(v[0].1)
    } else {
        lookup(v.drop_first(), key)
    }
}

/// No key occurs twice.
pub open spec fn keys_distinct(v: Seq<(Seq<char>, Seq<char>)>) -> bool {
    forall|i: int, j: int| 0 <= i < j < v.len() ==> (#[trigger] v[i]).0 != (#[trigger] v[j]).0
}

/// A resolved auth payload: the method, and key/value pairs (such as
/// `api_key` or `access_token`) with distinct keys.
#[derive(Debug, Clone)]
pub struct ResolvedAuth {
    /// Auth method identifier (`api_key` or `oauth_pkce`).
    pub method: String,
    /// Key/value payload.
    pub values: Vec<(String, String)>,
}

/// The value stored under `key`: with distinct keys, the one pair that has
/// it.
pub proof fn lemma_lookup_distinct(v: Seq<(Seq<char>, Seq<char>)>, key: Seq<char>, i: int)
    requires
        keys_distinct(v),
        0 <= i < v.len(),
        v[i].0 == key,
    ensures
        lookup(v, key) == Some(v[i].1),
    decreases v.len(),
{
    if i > 0 {
        assert(v[0].0 != v[i].0);
        let d = v.drop_first();
        assert forall|a: int, b: int| 0 <= a < b < d.len() implies (#[trigger] d[a]).0 != (#[trigger] d[b]).0 by {
            assert(d[a] == v[a + 1] && d[b] == v[b + 1]);
        }
        assert(d[i - 1] == v[i]);
        lemma_lookup_distinct(d, key, i - 1);
    }
}

impl Default for ResolvedAuth {
    /// No method and no values.
    fn default() -> (a: ResolvedAuth)
        ensures
            a.method@.len() == 0,
            a.values@.len() == 0,
            a.well_formed(),
    {
        ResolvedAuth { method: String::new(), values: Vec::new() }
    }
}

impl ResolvedAuth {
    /// No key occurs twice among the values.
    pub open spec fn well_formed(&self) -> bool {
        keys_distinct(pair_views(self.values@))
    }

    /// An API key payload.
    pub fn api_key(api_key: String) -> (a: ResolvedAuth)
        ensures
            a.well_formed(),
            a.method@ == "api_key"@,
            pair_views(a.values@) == seq![("api_key"@, api_key@)],
    {
        let values = vec![("api_key".to_owned(), api_key)];
        assert(pair_views(values@) =~= seq![("api_key"@, api_key@)]);
        ResolvedAuth { method: "api_key".to_owned(), values }
    }

    /// A bearer token payload.
    pub fn bearer(token: String) -> (a: ResolvedAuth)
        ensures
            a.well_formed(),
            a.method@ == "oauth_pkce"@,
            pair_views(a.values@) == seq![("access_token"@, token@)],
    {
        let values = vec![("access_token".to_owned(), token)];
        assert(pair_views(values@) =~= seq![("access_token"@, token@)]);
        ResolvedAuth { method: "oauth_pkce".to_owned(), values }
    }

    /// A copy of the payload.
    pub fn copy(&self) -> (r: ResolvedAuth)
        ensures
            r.method@ == self.method@,
            r.values@ == self.values@,
    {
        ResolvedAuth { method: self.method.clone(), values: copy_pair_list(&self.values) }
    }

    /// The value under `key` (its first pair; the only one in a well-formed
    /// payload).
    pub fn get(&self, key: &str) -> (r: Option<&str>)
        ensures
            match lookup(pair_views(self.values@), key@) {
                Some(v) => r matches Some(x) && x@ == v,
                None => r is None,
            },
            self.well_formed() ==> forall|i: int|
                0 <= i < self.values@.len() && #[trigger] self.values@[i].0@ == key@ ==> (r matches Some(x)
                    && x@ == self.values@[i].1@),
    {
        proof {
            if self.well_formed() {
                assert forall|i: int| 0 <= i < self.values@.len() && #[trigger] self.values@[i].0@ == key@ implies lookup(
                    pair_views(self.values@),
                    key@,
                ) == Some(self.values@[i].1@) by {
                    assert(pair_views(self.values@)[i] == (self.values@[i].0@, self.values@[i].1@));
                    lemma_lookup_distinct(pair_views(self.values@), key@, i);
                }
            }
        }
        let k = key.to_owned();
        assert(pair_views(self.values@).skip(0) == pair_views(self.values@));
        for i in 0..self.values.len()
            invariant
                k@ == key@,
                lookup(pair_views(self.values@), key@) == lookup(
                    pair_views(self.values@).skip(i as int),
                    key@,
                ),
                self.well_formed() ==> forall|j: int|
                    0 <= j < self.values@.len() && #[trigger] self.values@[j].0@ == key@ ==> lookup(
                        pair_views(self.values@),
                        key@,
                    ) == Some(self.values@[j].1@),
        {
            assert(pair_views(self.values@).skip(i as int).drop_first() == pair_views(self.values@).skip(
                i + 1,
            ));
            if self.values[i].0 == k {
                return Some(self.values[i].1.as_str());
            }
        }
        assert(pair_views(self.values@).skip(self.values.len() as int) =~= Seq::<(Seq<char>, Seq<char>)>::empty());
        None
    }
}

/// Request passed to an auth resolver.
#[derive(Debug, Clone)]
pub struct AuthRequest {
    pub provider_id: String,
    pub provider_name: String,
    pub auth_method: AuthMethod,
    pub env_candidates: Vec<String>,
}

/// The environment variables an auth method reads: an API key's candidates, or none.
pub fn env_candidates_for_auth(auth_method: &AuthMethod) -> (v: Vec<String>)
    ensures
        match *auth_method {
            AuthMethod::ApiKey(cfg) => v@ == cfg.env@,
            AuthMethod::OAuthPkce(_) => v@.len() == 0,
        },
{
    match auth_method {
        AuthMethod::ApiKey(cfg) => {
            let mut v: Vec<String> = Vec::new();
            for i in 0..cfg.env.len()
                invariant
                    v@ == cfg.env@.take(i as int),
            {
                v.push(cfg.env[i].clone());
                assert(v@ == cfg.env@.take(i + 1));
            }
            assert(cfg.env@.take(cfg.env.len() as int) == cfg.env@);
            v
        },
        AuthMethod::OAuthPkce(_) => Vec::new(),
    }
}

/// A provider that is configured and compatible with at least one factory.
#[derive(Debug, Clone)]
pub struct AvailableProvider {
    /// Provider identifier (e.g. `openai`).
    pub id: String,
    /// Human-friendly display name (e.g. `OpenAI`).
    pub name: String,
}

/// A provider known to the registry.
#[derive(Debug, Clone)]
pub struct KnownProvider {
    pub id: String,
    pub name: String,
    /// Auth method kind identifier.
    pub auth_method: String,
    /// True when credentials are currently resolvable.
    pub configured: bool,
    /// True when at least one registered factory (or direct provider) can serve it.
    pub compatible: bool,
}

// ---------------------------------------------------------------------------
// Signatures of resolved auth
// ---------------------------------------------------------------------------

/// Pairs in increasing order of key.
pub open spec fn sorted_by_key(s: Seq<(Seq<char>, Seq<char>)>) -> bool {
    forall|i: int, j: int| 0 <= i < j < s.len() ==> chars_le((#[trigger] s[i]).0, (#[trigger] s[j]).0)
}

/// `|key=value` for each pair.
pub open spec fn pairs_text(s: Seq<(Seq<char>, Seq<char>)>) -> Seq<char>
    decreases s.len(),
{
    if s.len() == 0 {
        Seq::<char>::empty()
    } else {
        pairs_text(s.drop_last()) + seq!['|'] + s.last().0 + seq!['='] + s.last().1
    }
}

/// `sig` is the method followed by the pairs in order of key.
pub open spec fn signature_of(method: Seq<char>, pairs: Seq<(Seq<char>, Seq<char>)>, sig: Seq<char>) -> bool {
    exists|sorted: Seq<(Seq<char>, Seq<char>)>|
        #![trigger pairs_text(sorted)]
        sorted.to_multiset() == pairs.to_multiset() && sorted_by_key(sorted) && sig == method + pairs_text(sorted)
}

/// A text that identifies a resolved auth: the method, then its pairs in
/// order of key.
pub fn auth_signature(auth: &ResolvedAuth) -> (sig: String)
    ensures
        signature_of(auth.method@, pair_views(auth.values@), sig@),
{
    broadcast use vstd::seq_lib::group_to_multiset_ensures;

    let ghost orig = pair_views(auth.values@);
    let mut rest: Vec<(Vec<char>, Vec<char>)> = Vec::new();
    for i in 0..auth.values.len()
        invariant
            rest.len() == i,
            forall|k: int| 0 <= k < i ==> ((#[trigger] rest@[k]).0@, rest@[k].1@) == orig[k],
            orig == pair_views(auth.values@),
    {
        let p = (to_chars(auth.values[i].0.as_str()), to_chars(auth.values[i].1.as_str()));
        rest.push(p);
    }
    let ghost mut rest_view: Seq<(Seq<char>, Seq<char>)> = orig;
    assert(rest_view =~= rest@.map_values(|p: (Vec<char>, Vec<char>)| (p.0@, p.1@)));
    let ghost mut done: Seq<(Seq<char>, Seq<char>)> = Seq::empty();
    let mut out = String::new();
    push_str(&mut out, auth.method.as_str());
    while rest.len() > 0
        invariant
            rest_view == rest@.map_values(|p: (Vec<char>, Vec<char>)| (p.0@, p.1@)),
            done.to_multiset().add(rest_view.to_multiset()) == orig.to_multiset(),
            sorted_by_key(done),
            forall|i: int, j: int|
                0 <= i < done.len() && 0 <= j < rest_view.len() ==> chars_le(
                    (#[trigger] done[i]).0,
                    (#[trigger] rest_view[j]).0,
                ),
            out@ == auth.method@ + pairs_text(done),
        decreases rest.len(),
    {
        let mut m: usize = 0;
        proof {
            lemma_chars_le_total(rest_view[0].0, rest_view[0].0);
        }
        for j in 1..rest.len()
            invariant
                m < j <= rest.len(),
                rest_view == rest@.map_values(|p: (Vec<char>, Vec<char>)| (p.0@, p.1@)),
                forall|k: int| 0 <= k < j ==> chars_le(rest_view[m as int].0, (#[trigger] rest_view[k]).0),
        {
            if !crate::skill::chars_le_exec(&rest[m].0, &rest[j].0) {
                proof {
                    lemma_chars_le_total(rest_view[m as int].0, rest_view[j as int].0);
                    assert forall|k: int| 0 <= k < j + 1 implies chars_le(
                        rest_view[j as int].0,
                        (#[trigger] rest_view[k]).0,
                    ) by {
                        if k < j {
                            lemma_chars_le_trans(rest_view[j as int].0, rest_view[m as int].0, rest_view[k].0);
                        } else {
                            lemma_chars_le_total(rest_view[j as int].0, rest_view[j as int].0);
                        }
                    }
                }
                m = j;
            }
        }
        let ghost before_rest = rest_view;
        let ghost before_done = done;
        let (k, v) = rest.remove(m);
        let ghost x = (k@, v@);
        proof {
            assert(before_rest[m as int] == x);
            rest_view = before_rest.remove(m as int);
            assert(rest_view =~= rest@.map_values(|p: (Vec<char>, Vec<char>)| (p.0@, p.1@)));
            done = before_done.push(x);
            vstd::seq_lib::to_multiset_remove(before_rest, m as int);
            vstd::seq_lib::to_multiset_build(before_done, x);
            vstd::seq_lib::to_multiset_contains(before_rest, x);
            assert(before_rest.contains(x));
            assert(done.to_multiset().add(rest_view.to_multiset()) =~= orig.to_multiset()) by {
                broadcast use vstd::multiset::group_multiset_axioms;
            }
            assert forall|i: int, j: int| 0 <= i < j < done.len() implies chars_le(
                (#[trigger] done[i]).0,
                (#[trigger] done[j]).0,
            ) by {}
            assert forall|i: int, j: int|
                0 <= i < done.len() && 0 <= j < rest_view.len() implies chars_le(
                (#[trigger] done[i]).0,
                (#[trigger] rest_view[j]).0,
            ) by {
                let jj = if j < m { j } else { j + 1 };
                assert(rest_view[j] == before_rest[jj]);
            }
            assert(done.drop_last() == before_done);
        }
        let ks = crate::text::string_from_chars(k.as_slice());
        let vs = crate::text::string_from_chars(v.as_slice());
        push_char(&mut out, '|');
        push_str(&mut out, ks.as_str());
        push_char(&mut out, '=');
        push_str(&mut out, vs.as_str());
    }
    proof {
        assert(rest_view =~= Seq::<(Seq<char>, Seq<char>)>::empty());
        assert(done.to_multiset().add(rest_view.to_multiset()) =~= done.to_multiset()) by {
            broadcast use vstd::multiset::group_multiset_axioms;
        }
        assert(pairs_text(done) == pairs_text(done));
    }
    out
}

pub proof fn lemma_chars_le_antisymmetric(a: Seq<char>, b: Seq<char>)
    requires
        chars_le(a, b),
        chars_le(b, a),
    ensures
        a == b,
    decreases a.len(),
{
    if a.len() > 0 {
        lemma_chars_le_antisymmetric(a.drop_first(), b.drop_first());
        assert(a == seq![a[0]] + a.drop_first());
        assert(b == seq![b[0]] + b.drop_first());
    }
}

/// Two sequences of pairs with distinct keys, both in order of key and with
/// the same pairs, are the same sequence.
pub proof fn lemma_sorted_pairs_unique(x: Seq<(Seq<char>, Seq<char>)>, y: Seq<(Seq<char>, Seq<char>)>)
    requires
        sorted_by_key(x),
        sorted_by_key(y),
        x.to_multiset() == y.to_multiset(),
        keys_distinct(x),
    ensures
        x == y,
    decreases x.len(),
{
    broadcast use vstd::seq_lib::group_to_multiset_ensures;
    broadcast use vstd::multiset::group_multiset_axioms;

    if x.len() == 0 {
        assert(y.to_multiset().len() == 0);
        assert(y.len() == 0);
    } else {
        vstd::seq_lib::to_multiset_len(x);
        vstd::seq_lib::to_multiset_len(y);
        assert(y.len() == x.len());
        assert(x.to_multiset().count(x[0]) > 0);
        assert(y.contains(x[0]));
        let j = choose|j: int| 0 <= j < y.len() && y[j] == x[0];
        assert(y.to_multiset().count(y[0]) > 0);
        assert(x.contains(y[0]));
        let i = choose|i: int| 0 <= i < x.len() && x[i] == y[0];
        if i > 0 {
            assert(chars_le(x[0].0, x[i].0));
        } else {
            lemma_chars_le_total(x[0].0, x[0].0);
        }
        if j > 0 {
            assert(chars_le(y[0].0, y[j].0));
        } else {
            lemma_chars_le_total(y[0].0, y[0].0);
        }
        lemma_chars_le_antisymmetric(x[0].0, y[0].0);
        if i != 0 {
            assert(x[i].0 == x[0].0);
            assert(false);
        }
        assert(x[0] == y[0]);
        vstd::seq_lib::to_multiset_remove(x, 0);
        vstd::seq_lib::to_multiset_remove(y, 0);
        assert(x.remove(0) == x.drop_first());
        assert(y.remove(0) == y.drop_first());
        let xs = x.drop_first();
        let ys = y.drop_first();
        assert forall|a: int, b: int| 0 <= a < b < xs.len() implies chars_le((#[trigger] xs[a]).0, (#[trigger] xs[b]).0) by {
            assert(xs[a] == x[a + 1] && xs[b] == x[b + 1]);
        }
        assert forall|a: int, b: int| 0 <= a < b < ys.len() implies chars_le((#[trigger] ys[a]).0, (#[trigger] ys[b]).0) by {
            assert(ys[a] == y[a + 1] && ys[b] == y[b + 1]);
        }
        assert forall|a: int, b: int| 0 <= a < b < xs.len() implies (#[trigger] xs[a]).0 != (#[trigger] xs[b]).0 by {
            assert(xs[a] == x[a + 1] && xs[b] == x[b + 1]);
        }
        lemma_sorted_pairs_unique(xs, ys);
        assert(x == seq![x[0]] + xs);
        assert(y == seq![y[0]] + ys);
    }
}

/// The signature of a resolved auth does not depend on the order in which
/// its pairs are listed.
pub proof fn law_signature_ignores_order(
    method: Seq<char>,
    a: Seq<(Seq<char>, Seq<char>)>,
    b: Seq<(Seq<char>, Seq<char>)>,
    sig_a: Seq<char>,
    sig_b: Seq<char>,
)
    requires
        a.to_multiset() == b.to_multiset(),
        keys_distinct(a),
        signature_of(method, a, sig_a),
        signature_of(method, b, sig_b),
    ensures
        sig_a == sig_b,
{
    broadcast use vstd::seq_lib::group_to_multiset_ensures;

    let sa = choose|sorted: Seq<(Seq<char>, Seq<char>)>|
        #![trigger pairs_text(sorted)]
        sorted.to_multiset() == a.to_multiset() && sorted_by_key(sorted) && sig_a == method + pairs_text(sorted);
    let sb = choose|sorted: Seq<(Seq<char>, Seq<char>)>|
        #![trigger pairs_text(sorted)]
        sorted.to_multiset() == b.to_multiset() && sorted_by_key(sorted) && sig_b == method + pairs_text(sorted);
    lemma_permutation_keys_distinct(a, sa);
    lemma_sorted_pairs_unique(sa, sb);
}

/// A permutation of pairs with distinct keys has distinct keys.
proof fn lemma_permutation_keys_distinct(a: Seq<(Seq<char>, Seq<char>)>, p: Seq<(Seq<char>, Seq<char>)>)
    requires
        keys_distinct(a),
        p.to_multiset() == a.to_multiset(),
    ensures
        keys_distinct(p),
{
    assert forall|i: int, j: int| 0 <= i < j < p.len() implies (#[trigger] p[i]).0 != (#[trigger] p[j]).0 by {
        if p[i].0 == p[j].0 {
            lemma_same_key_impossible(a, p, i, j);
        }
    }
}

proof fn lemma_same_key_impossible(a: Seq<(Seq<char>, Seq<char>)>, p: Seq<(Seq<char>, Seq<char>)>, i: int, j: int)
    requires
        keys_distinct(a),
        p.to_multiset() == a.to_multiset(),
        0 <= i < j < p.len(),
    ensures
        p[i].0 != p[j].0,
{
    broadcast use vstd::seq_lib::group_to_multiset_ensures;
    broadcast use vstd::multiset::group_multiset_axioms;

    if p[i].0 == p[j].0 {
        assert(p.to_multiset().count(p[i]) > 0);
        assert(p.to_multiset().count(p[j]) > 0);
        assert(a.contains(p[i]));
        assert(a.contains(p[j]));
        let ii = choose|k: int| 0 <= k < a.len() && a[k] == p[i];
        let jj = choose|k: int| 0 <= k < a.len() && a[k] == p[j];
        if ii != jj {
            if ii < jj {
                assert(a[ii].0 != a[jj].0);
            } else {
                assert(a[jj].0 != a[ii].0);
            }
        } else {
            // p[i] == p[j]: the pair occurs twice in p, so twice in a.
            assert(p[i] == p[j]);
            lemma_count_two(p, i, j);
            assert(a.to_multiset().count(p[i]) >= 2);
            lemma_count_one(a, ii);
        }
    }
}

proof fn lemma_count_two(p: Seq<(Seq<char>, Seq<char>)>, i: int, j: int)
    requires
        0 <= i < j < p.len(),
        p[i] == p[j],
    ensures
        p.to_multiset().count(p[i]) >= 2,
{
    broadcast use vstd::seq_lib::group_to_multiset_ensures;
    broadcast use vstd::multiset::group_multiset_axioms;

    let q = p.remove(j);
    vstd::seq_lib::to_multiset_remove(p, j);
    assert(q[i] == p[i]);
    assert(q.contains(p[i]));
    assert(q.to_multiset().count(p[i]) > 0);
}

proof fn lemma_count_one(a: Seq<(Seq<char>, Seq<char>)>, k: int)
    requires
        keys_distinct(a),
        0 <= k < a.len(),
    ensures
        a.to_multiset().count(a[k]) == 1,
{
    broadcast use vstd::seq_lib::group_to_multiset_ensures;
    broadcast use vstd::multiset::group_multiset_axioms;

    let q = a.remove(k);
    vstd::seq_lib::to_multiset_remove(a, k);
    assert(!q.contains(a[k])) by {
        if q.contains(a[k]) {
            let m = choose|m: int| 0 <= m < q.len() && q[m] == a[k];
            let mm = if m < k { m } else { m + 1 };
            assert(q[m] == a[mm]);
            if mm < k {
                assert(a[mm].0 != a[k].0);
            } else {
                assert(a[k].0 != a[mm].0);
            }
        }
    }
    assert(q.to_multiset().count(a[k]) == 0);
}

} // verus!
