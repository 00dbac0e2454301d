//! OAuth authorization code flow with PKCE: the verifier, challenge and state
//! of a new flow, the authorization URL, and reading the code back from what
//! the user pastes.

use base64::Engine;
use sha2::Digest;
use vstd::prelude::*;
use vstd::string::StringSliceAdditionalSpecFns;

use crate::auth::{lookup, pair_views, OAuthPkceAuth};
use crate::mentions::occurs;
use crate::text::find_char;
use crate::hashline::join;
use crate::text::{push_str, string_from_range, to_chars, trim, trim_str};

verus! {

// ---------------------------------------------------------------------------
// Errors
// ---------------------------------------------------------------------------

/// Why an auth operation failed.
pub enum AuthError {
    /// Talking to the credential store failed (its message).
    Store(String),
    /// A stored credential could not be read (its message).
    CredentialParse(String),
    /// A token request failed (its message).
    Http(String),
    UnsupportedAuthMethod(String),
    MissingCredentials { provider: String, method: String },
    OAuthStateMismatch,
    MissingOAuthCode,
    InvalidOAuthTokenResponse,
    InvalidRedirectUrl(String),
    Other(String),
}

// ---------------------------------------------------------------------------
// Outside calls
// ---------------------------------------------------------------------------

/// The URL-safe base64 alphabet.
pub open spec fn b64_char(v: u8) -> char {
    if v < 26 {
        (('A' as u8) + v) as char
    } else if v < 52 {
        (('a' as u8) + (v - 26)) as char
    } else if v < 62 {
        (('0' as u8) + (v - 52)) as char
    } else if v == 62 {
        '-'
    } else {
        '_'
    }
}

/// URL-safe base64 without padding (RFC 4648, section 5): each group of three
/// bytes as four characters of six bits each, a last group of one or two bytes
/// as two or three characters.
pub open spec fn base64_url_nopad(b: Seq<u8>) -> Seq<char>
    decreases b.len(),
{
    if b.len() == 0 {
        Seq::<char>::empty()
    } else if b.len() == 1 {
        seq![b64_char(b[0] >> 2), b64_char(((b[0] & 3) << 4) as u8)]
    } else if b.len() == 2 {
        seq![
            b64_char(b[0] >> 2),
            b64_char((((b[0] & 3) << 4) | (b[1] >> 4)) as u8),
            b64_char(((b[1] & 15) << 2) as u8),
        ]
    } else {
        seq![
            b64_char(b[0] >> 2),
            b64_char((((b[0] & 3) << 4) | (b[1] >> 4)) as u8),
            b64_char((((b[1] & 15) << 2) | (b[2] >> 6)) as u8),
            b64_char(b[2] & 63),
        ] + base64_url_nopad(b.skip(3))
    }
}

/// Calls `base64`'s `URL_SAFE_NO_PAD.encode`: the text is the URL-safe base64
/// encoding of the bytes without padding.
#[verifier::external_body]
fn encode_base64_url(bytes: &[u8]) -> (s: String)
    requires
        bytes@.len() <= usize::MAX / 2,
    ensures
        s@ == base64_url_nopad(bytes@),
{
    base64::engine::general_purpose::URL_SAFE_NO_PAD.encode(bytes)
}

/// The SHA-256 digest of a byte string.
pub uninterp spec fn sha256_digest(bytes: Seq<u8>) -> Seq<u8>;

/// Calls `sha2`'s `Sha256` (`new`, `update`, `finalize`): the digest of the
/// bytes, which is 32 bytes long.
#[verifier::external_body]
fn sha256(bytes: &[u8]) -> (d: Vec<u8>)
    ensures
        d@ == sha256_digest(bytes@),
        d@.len() == 32,
{
    let mut hasher = sha2::Sha256::new();
    hasher.update(bytes);
    hasher.finalize().to_vec()
}

/// Calls `rand::random` for 16 bytes; nothing is promised of them.
#[verifier::external_body]
fn random_16() -> (b: [u8; 16]) {
    rand::random()
}

/// Calls `rand::random` for 32 bytes; nothing is promised of them.
#[verifier::external_body]
fn random_32() -> (b: [u8; 32]) {
    rand::random()
}

/// What `url` makes of a URL and query pairs: the parsed URL with the pairs
/// appended to its query, as text; `None` when the URL does not parse.
pub uninterp spec fn url_with_query(base: Seq<char>, pairs: Seq<(Seq<char>, Seq<char>)>) -> Option<Seq<char>>;

/// Calls `url::Url::parse` on `base`, then `query_pairs_mut().append_pair` for
/// each pair in order, then `to_string`; the result is named by `url_with_query`.
#[verifier::external_body]
fn append_query_pairs(base: &str, pairs: &Vec<(String, String)>) -> (r: Option<String>)
    ensures
        match url_with_query(base@, pair_views(pairs@)) {
            Some(t) => r matches Some(s) && s@ == t,
            None => r is None,
        },
{
    let mut url = url::Url::parse(base).ok()?;
    for (k, v) in pairs {
        url.query_pairs_mut().append_pair(k, v);
    }
    Some(url.to_string())
}

/// The decoded query pairs of a text that parses as a URL, in order.
pub uninterp spec fn url_query(s: Seq<char>) -> Option<Seq<(Seq<char>, Seq<char>)>>;

/// Calls `url::Url::parse`, then `query_pairs`: the decoded pairs of the
/// query, or `None` when the text does not parse as a URL.
#[verifier::external_body]
fn parse_url_query(s: &str) -> (r: Option<Vec<(String, String)>>)
    ensures
        match url_query(s@) {
            Some(ps) => r matches Some(v) && pair_views(v@) == ps,
            None => r is None,
        },
{
    let url = url::Url::parse(s).ok()?;
    Some(url.query_pairs().map(|(k, v)| (k.into_owned(), v.into_owned())).collect())
}

/// The pairs of an `application/x-www-form-urlencoded` text, in order.
pub uninterp spec fn form_pairs(s: Seq<u8>) -> Seq<(Seq<char>, Seq<char>)>;

/// Calls `url::form_urlencoded::parse`: the decoded pairs, in order.
#[verifier::external_body]
fn parse_form(s: &str) -> (v: Vec<(String, String)>)
    ensures
        pair_views(v@) == form_pairs(s.spec_bytes()),
{
    url::form_urlencoded::parse(s.as_bytes()).into_owned().collect()
}

// ---------------------------------------------------------------------------
// Starting a flow
// ---------------------------------------------------------------------------

/// A started flow: where to send the user, the verifier to redeem the code
/// with, and the state the callback must carry.
#[derive(Debug, Clone)]
pub struct OAuthStart {
    pub authorize_url: String,
    pub verifier: String,
    pub state: String,
}

/// Tokens obtained from a provider, and when the access token expires.
#[derive(Debug, Clone)]
pub struct OAuthCredential {
    pub access_token: String,
    pub refresh_token: String,
    pub expires_at_ms: u64,
}

/// The PKCE challenge of a verifier: base64 of its SHA-256 digest.
pub open spec fn pkce_challenge(verifier: Seq<char>) -> Seq<char> {
    base64_url_nopad(sha256_digest(vstd::utf8::encode_utf8(verifier)))
}

fn create_pkce_challenge(verifier: &str) -> (c: String)
    ensures
        c@ == pkce_challenge(verifier@),
{
    let digest = sha256(verifier.as_bytes());
    encode_base64_url(digest.as_slice())
}

/// A fresh state: 16 random bytes in URL-safe base64.
fn create_state() -> (s: String)
    ensures
        exists|b: Seq<u8>| b.len() == 16 && s@ == #[trigger] base64_url_nopad(b),
{
    let bytes = random_16();
    encode_base64_url(bytes.as_slice())
}

/// A fresh verifier: 32 random bytes in URL-safe base64.
fn create_pkce_verifier() -> (s: String)
    ensures
        exists|b: Seq<u8>| b.len() == 32 && s@ == #[trigger] base64_url_nopad(b),
{
    let bytes = random_32();
    encode_base64_url(bytes.as_slice())
}

pub open spec fn kv(k: Seq<char>, v: Seq<char>) -> (Seq<char>, Seq<char>) {
    (k, v)
}

/// The query pairs of an authorization URL: the fixed PKCE parameters, the
/// scopes joined by spaces when there are any, then the provider's extras.
pub open spec fn authorize_pairs(config: OAuthPkceAuth, challenge: Seq<char>, state: Seq<char>) -> Seq<(Seq<char>, Seq<char>)> {
    seq![
        kv("response_type"@, "code"@),
        kv("client_id"@, config.client_id@),
        kv("redirect_uri"@, config.redirect_url@),
        kv("code_challenge"@, challenge),
        kv("code_challenge_method"@, "S256"@),
        kv("state"@, state),
    ] + (if config.scopes@.len() == 0 {
        Seq::<(Seq<char>, Seq<char>)>::empty()
    } else {
        seq![kv("scope"@, join(config.scopes@.map_values(|s: String| s@), " "@))]
    }) + pair_views(config.authorize_params@)
}

fn pair(k: &str, v: &str) -> (p: (String, String))
    ensures
        p.0@ == k@,
        p.1@ == v@,
{
    (k.to_owned(), v.to_owned())
}

/// The authorization URL for a flow, or `InvalidRedirectUrl` when the
/// configured URL does not parse.
pub fn build_authorize_url(config: &OAuthPkceAuth, challenge: &str, state: &str) -> (r: Result<String, AuthError>)
    ensures
        match url_with_query(config.authorize_url@, authorize_pairs(*config, challenge@, state@)) {
            Some(t) => r matches Ok(s) && s@ == t,
            None => r matches Err(AuthError::InvalidRedirectUrl(u)) && u@ == config.authorize_url@,
        },
{
    let mut pairs: Vec<(String, String)> = Vec::new();
    pairs.push(pair("response_type", "code"));
    pairs.push(pair("client_id", config.client_id.as_str()));
    pairs.push(pair("redirect_uri", config.redirect_url.as_str()));
    pairs.push(pair("code_challenge", challenge));
    pairs.push(pair("code_challenge_method", "S256"));
    pairs.push(pair("state", state));
    let ghost fixed = pair_views(pairs@);
    if config.scopes.len() > 0 {
        let joined = crate::hashline::join_strings(&config.scopes, " ");
        pairs.push(("scope".to_owned(), joined));
        assert(crate::hashline::views(config.scopes@) == config.scopes@.map_values(|s: String| s@));
    }
    let ghost with_scope = pair_views(pairs@);
    for i in 0..config.authorize_params.len()
        invariant
            pair_views(pairs@) == with_scope + pair_views(config.authorize_params@.take(i as int)),
    {
        let (k, v) = (config.authorize_params[i].0.clone(), config.authorize_params[i].1.clone());
        let ghost before = pairs@;
        pairs.push((k, v));
        assert(pair_views(pairs@) =~= pair_views(before).push((k@, v@)));
        assert(pair_views(config.authorize_params@.take(i + 1)) =~= pair_views(
            config.authorize_params@.take(i as int),
        ).push((config.authorize_params@[i as int].0@, config.authorize_params@[i as int].1@)));
        assert(pair_views(pairs@) =~= with_scope + pair_views(config.authorize_params@.take(i + 1)));
    }
    proof {
        assert(config.authorize_params@.take(config.authorize_params.len() as int)
            == config.authorize_params@);
        assert(pair_views(pairs@) =~= authorize_pairs(*config, challenge@, state@));
    }
    match append_query_pairs(config.authorize_url.as_str(), &pairs) {
        Some(url) => Ok(url),
        None => Err(AuthError::InvalidRedirectUrl(config.authorize_url.clone())),
    }
}

/// Starts a PKCE flow: a fresh verifier and state, and the authorization URL
/// carrying the verifier's challenge and the state.
pub fn begin_pkce(config: &OAuthPkceAuth) -> (r: Result<OAuthStart, AuthError>)
    ensures
        match r {
            Ok(s) => {
                &&& exists|b: Seq<u8>| b.len() == 32 && s.verifier@ == #[trigger] base64_url_nopad(b)
                &&& exists|b: Seq<u8>| b.len() == 16 && s.state@ == #[trigger] base64_url_nopad(b)
                &&& url_with_query(
                    config.authorize_url@,
                    authorize_pairs(*config, pkce_challenge(s.verifier@), s.state@),
                ) == Some(s.authorize_url@)
            },
            Err(e) => {
                &&& e matches AuthError::InvalidRedirectUrl(u) && u@ == config.authorize_url@
                &&& exists|v: Seq<char>, st: Seq<char>|
                    #![trigger authorize_pairs(*config, pkce_challenge(v), st)]
                    url_with_query(config.authorize_url@, authorize_pairs(*config, pkce_challenge(v), st)) is None
            },
        },
{
    let verifier = create_pkce_verifier();
    let challenge = create_pkce_challenge(verifier.as_str());
    let state = create_state();
    let authorize_url = build_authorize_url(config, challenge.as_str(), state.as_str())?;
    Ok(OAuthStart { authorize_url, verifier, state })
}

// ---------------------------------------------------------------------------
// Reading the code back
// ---------------------------------------------------------------------------

/// The value of the last pair with key `key` (what collecting the pairs into
/// a map keeps).
pub open spec fn last_value(ps: Seq<(Seq<char>, Seq<char>)>, key: Seq<char>) -> Option<Seq<char>>
    decreases ps.len(),
{
    if ps.len() == 0 {
        None
    } else if ps.last().0 == key {
        Some(ps.last().1)
    } else {
        last_value(ps.drop_last(), key)
    }
}

/// The code and the state found in a pasted value: the query of a URL, the
/// fields of a form, `code#state`, or the bare code.
pub open spec fn code_and_state(value: Seq<char>) -> (Option<Seq<char>>, Option<Seq<char>>) {
    match url_query(value) {
        Some(ps) => (lookup(ps, "code"@), lookup(ps, "state"@)),
        None => if occurs(value, "code="@) {
            let ps = form_pairs(vstd::utf8::encode_utf8(value));
            (last_value(ps, "code"@), last_value(ps, "state"@))
        } else {
            match find_char(value, '#') {
                Some(i) => (Some(value.take(i as int)), Some(value.skip(i as int + 1))),
                None => (Some(value), None),
            }
        },
    }
}

/// What reading a pasted value gives, when the flow's state is `expected`.
pub open spec fn extracted_code(input: Seq<char>, expected: Seq<char>) -> Result<Seq<char>, ()> {
    let value = trim(input);
    if value.len() == 0 {
        Err(())
    } else {
        let (code, state) = code_and_state(value);
        if state is Some && state->0 != expected {
            Err(())
        } else {
            match code {
                Some(c) => Ok(c),
                None => Err(()),
            }
        }
    }
}

fn first_value_of(ps: &Vec<(String, String)>, key: &str) -> (r: Option<String>)
    ensures
        match lookup(pair_views(ps@), key@) {
            Some(v) => r matches Some(x) && x@ == v,
            None => r is None,
        },
{
    let k = key.to_owned();
    assert(pair_views(ps@).skip(0) == pair_views(ps@));
    for i in 0..ps.len()
        invariant
            k@ == key@,
            lookup(pair_views(ps@), key@) == lookup(pair_views(ps@).skip(i as int), key@),
    {
        assert(pair_views(ps@).skip(i as int).drop_first() == pair_views(ps@).skip(i + 1));
        if ps[i].0 == k {
            return Some(ps[i].1.clone());
        }
    }
    assert(pair_views(ps@).skip(ps.len() as int) =~= Seq::<(Seq<char>, Seq<char>)>::empty());
    None
}

pub(crate) fn last_value_of(ps: &Vec<(String, String)>, key: &str) -> (r: Option<String>)
    ensures
        match last_value(pair_views(ps@), key@) {
            Some(v) => r matches Some(x) && x@ == v,
            None => r is None,
        },
{
    let k = key.to_owned();
    let mut found: Option<String> = None;
    for i in 0..ps.len()
        invariant
            k@ == key@,
            match last_value(pair_views(ps@.take(i as int)), key@) {
                Some(v) => found matches Some(x) && x@ == v,
                None => found is None,
            },
    {
        assert(pair_views(ps@.take(i + 1)).drop_last() == pair_views(ps@.take(i as int)));
        if ps[i].0 == k {
            found = Some(ps[i].1.clone());
        }
    }
    assert(ps@.take(ps.len() as int) == ps@);
    found
}

/// The authorization code in what the user pasted after authorizing: the
/// query of the callback URL, a form-encoded text, `code#state`, or the bare
/// code. A state that differs from the flow's is refused.
pub fn extract_code_from_input(input: &str, expected_state: &str) -> (r: Result<String, AuthError>)
    ensures
        match extracted_code(input@, expected_state@) {
            Ok(c) => r matches Ok(x) && x@ == c,
            Err(_) => {
                let value = trim(input@);
                let (code, state) = code_and_state(value);
                if value.len() > 0 && state is Some && state->0 != expected_state@ {
                    r matches Err(AuthError::OAuthStateMismatch)
                } else {
                    r matches Err(AuthError::MissingOAuthCode)
                }
            },
        },
{
    let value = trim_str(input);
    if value.as_str().is_empty() {
        return Err(AuthError::MissingOAuthCode);
    }
    let (code, state): (Option<String>, Option<String>) = match parse_url_query(value.as_str()) {
        Some(ps) => (first_value_of(&ps, "code"), first_value_of(&ps, "state")),
        None => {
            let vc = to_chars(value.as_str());
            let needle = to_chars("code=");
            if crate::mentions::contains_chars(&vc, &needle) {
                let ps = parse_form(value.as_str());
                (last_value_of(&ps, "code"), last_value_of(&ps, "state"))
            } else {
                match crate::text::find_first(&vc, '#') {
                    Some(i) => {
                        let before = string_from_range(vc.as_slice(), 0, i);
                        let after = string_from_range(vc.as_slice(), i + 1, vc.len());
                        assert(value@.take(i as int) == value@.subrange(0, i as int));
                        assert(value@.skip(i + 1) == value@.subrange(i + 1, vc.len() as int));
                        (Some(before), Some(after))
                    },
                    None => (Some(value.clone()), None),
                }
            }
        },
    };
    assert(crate::mentions::opt_view(code) == code_and_state(value@).0);
    assert(crate::mentions::opt_view(state) == code_and_state(value@).1);
    let expected = expected_state.to_owned();
    match state {
        Some(s) => {
            if s != expected {
                return Err(AuthError::OAuthStateMismatch);
            }
        },
        None => {},
    }
    match code {
        Some(c) => Ok(c),
        None => Err(AuthError::MissingOAuthCode),
    }
}

/// A pasted input whose state differs from the flow's is refused even when
/// it carries a code; with no state, or the flow's, its code is taken and
/// only a missing code is refused; a blank input is refused.
pub proof fn law_state_is_checked_before_the_code(input: Seq<char>, expected: Seq<char>)
    ensures
        ({
            let value = trim(input);
            let (code, state) = code_and_state(value);
            &&& (value.len() > 0 && (state matches Some(s) && s != expected)) ==> extracted_code(input, expected) is Err
            &&& (value.len() > 0 && !(state matches Some(s) && s != expected)) ==> extracted_code(input, expected)
                == match code {
                Some(c) => Ok::<Seq<char>, ()>(c),
                None => Err(()),
            }
            &&& value.len() == 0 ==> extracted_code(input, expected) is Err
        }),
{
}

} // verus!
