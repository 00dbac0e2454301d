//! The address and headers of a request to the Responses API, including the
//! ChatGPT account id that a ChatGPT login token carries in its claims.

use base64::Engine;
use vstd::prelude::*;

use crate::auth::{copy_pair_list, pair_views};
use crate::oauth::base64_url_nopad;
use crate::openai::OpenAIConfig;
use crate::text::{push_char, push_str, to_chars};

verus! {

// ---------------------------------------------------------------------------
// Outside calls
// ---------------------------------------------------------------------------

/// What `base64`'s `URL_SAFE_NO_PAD.decode` gives for a text: the bytes, or
/// `None` where the text is no such encoding.
pub uninterp spec fn base64_url_decoded(s: Seq<char>) -> Option<Seq<u8>>;

/// Calls `base64`'s `URL_SAFE_NO_PAD.decode`. The engine decodes only
/// canonical, unpadded text, so bytes it gives encode back to the text.
#[verifier::external_body]
fn decode_base64_url(s: &str) -> (r: Option<Vec<u8>>)
    ensures
        match base64_url_decoded(s@) {
            Some(b) => r matches Some(v) && v@ == b && base64_url_nopad(b) == s@,
            None => r is None,
        },
{
    base64::engine::general_purpose::URL_SAFE_NO_PAD.decode(s).ok()
}

/// What `serde_json` finds in a JSON document at member `outer`, then its
/// member `inner`, when that is a string; `None` where the bytes are no JSON
/// document or hold no such string.
pub uninterp spec fn json_string_member(bytes: Seq<u8>, outer: Seq<char>, inner: Seq<char>) -> Option<Seq<char>>;

/// Calls `serde_json::from_slice` into a `Value`, then `Value::get` for
/// `outer` and `inner`, then `Value::as_str`.
#[verifier::external_body]
fn json_string_at(bytes: &[u8], outer: &str, inner: &str) -> (r: Option<String>)
    ensures
        match json_string_member(bytes@, outer@, inner@) {
            Some(v) => r matches Some(x) && x@ == v,
            None => r is None,
        },
{
    let value = serde_json::from_slice::<serde_json::Value>(bytes).ok()?;
    value.get(outer)?.get(inner)?.as_str().map(|s| s.to_string())
}

// ---------------------------------------------------------------------------
// The account id in a token
// ---------------------------------------------------------------------------

/// The number of `.` in a text.
pub open spec fn dots(s: Seq<char>) -> nat
    decreases s.len(),
{
    if s.len() == 0 {
        0
    } else {
        dots(s.drop_last()) + if s.last() == '.' {
            1nat
        } else {
            0nat
        }
    }
}

/// The characters after the first `.` and before the second.
pub open spec fn second_segment(s: Seq<char>) -> Seq<char>
    decreases s.len(),
{
    if s.len() == 0 {
        Seq::empty()
    } else if dots(s.drop_last()) == 1 && s.last() != '.' {
        second_segment(s.drop_last()).push(s.last())
    } else {
        second_segment(s.drop_last())
    }
}

/// The payload segment of a token made of three `.`-separated segments.
pub open spec fn jwt_payload(token: Seq<char>) -> Option<Seq<char>> {
    if dots(token) == 2 {
        Some(second_segment(token))
    } else {
        None
    }
}

/// The claim that holds the ChatGPT account.
pub open spec fn auth_claim() -> Seq<char> {
    "https://api.openai.com/auth"@
}

/// The member of that claim that names the account.
pub open spec fn account_field() -> Seq<char> {
    "chatgpt_account_id"@
}

/// The ChatGPT account id a token carries: its payload segment, decoded from
/// URL-safe base64, read as JSON at the account member of the auth claim.
pub open spec fn account_id_of(token: Seq<char>) -> Option<Seq<char>> {
    match jwt_payload(token) {
        None => None,
        Some(p) => match base64_url_decoded(p) {
            None => None,
            Some(b) => json_string_member(b, auth_claim(), account_field()),
        },
    }
}

/// A text with no `.` in it.
pub open spec fn dot_free(s: Seq<char>) -> bool {
    forall|i: int| 0 <= i < s.len() ==> s[i] != '.'
}

proof fn lemma_dots_concat(a: Seq<char>, b: Seq<char>)
    ensures
        dots(a + b) == dots(a) + dots(b),
    decreases b.len(),
{
    if b.len() == 0 {
        assert(a + b == a);
    } else {
        assert((a + b).drop_last() == a + b.drop_last());
        lemma_dots_concat(a, b.drop_last());
    }
}

proof fn lemma_dot_free_dots(b: Seq<char>)
    requires
        dot_free(b),
    ensures
        dots(b) == 0,
    decreases b.len(),
{
    if b.len() > 0 {
        lemma_dot_free_dots(b.drop_last());
    }
}

/// Dot-free text after fewer or more than one `.` adds nothing to the second
/// segment.
proof fn lemma_segment_skips(a: Seq<char>, b: Seq<char>)
    requires
        dot_free(b),
        dots(a) != 1,
    ensures
        second_segment(a + b) == second_segment(a),
    decreases b.len(),
{
    if b.len() == 0 {
        assert(a + b == a);
    } else {
        assert((a + b).drop_last() == a + b.drop_last());
        lemma_segment_skips(a, b.drop_last());
        lemma_dots_concat(a, b.drop_last());
        lemma_dot_free_dots(b.drop_last());
    }
}

/// Dot-free text after exactly one `.` is added to the second segment.
proof fn lemma_segment_takes(a: Seq<char>, b: Seq<char>)
    requires
        dot_free(b),
        dots(a) == 1,
    ensures
        second_segment(a + b) == second_segment(a) + b,
    decreases b.len(),
{
    if b.len() == 0 {
        assert(a + b == a);
        assert(second_segment(a) + b == second_segment(a));
    } else {
        assert((a + b).drop_last() == a + b.drop_last());
        lemma_segment_takes(a, b.drop_last());
        lemma_dots_concat(a, b.drop_last());
        lemma_dot_free_dots(b.drop_last());
        assert(second_segment(a) + b == (second_segment(a) + b.drop_last()).push(b.last()));
    }
}

/// A token made of three dot-free segments joined by `.` has the middle one
/// as its payload.
pub proof fn law_payload_is_middle_segment(header: Seq<char>, payload: Seq<char>, signature: Seq<char>)
    requires
        dot_free(header),
        dot_free(payload),
        dot_free(signature),
    ensures
        jwt_payload(header + "."@ + payload + "."@ + signature) == Some(payload),
{
    let dot: Seq<char> = seq!['.'];
    reveal_strlit(".");
    assert("."@ == dot);
    let t1 = header + dot;
    let t2 = t1 + payload;
    let t3 = t2 + dot;
    let t = t3 + signature;
    assert(header + "."@ + payload + "."@ + signature == t);
    lemma_dot_free_dots(header);
    lemma_dot_free_dots(payload);
    lemma_dot_free_dots(signature);
    assert(dot.drop_last() == Seq::<char>::empty());
    assert(dots(Seq::<char>::empty()) == 0);
    assert(dot.last() == '.');
    assert(dots(dot) == 1);
    lemma_dots_concat(header, dot);
    lemma_dots_concat(t1, payload);
    lemma_dots_concat(t2, dot);
    lemma_dots_concat(t3, signature);
    assert(dots(t) == 2);
    lemma_segment_skips(Seq::<char>::empty(), header);
    assert(Seq::<char>::empty() + header == header);
    assert(second_segment(header) == Seq::<char>::empty());
    assert(t1.drop_last() == header);
    assert(second_segment(t1) == Seq::<char>::empty());
    lemma_segment_takes(t1, payload);
    assert(second_segment(t2) == payload);
    assert(t3.drop_last() == t2);
    assert(second_segment(t3) == payload);
    lemma_segment_skips(t3, signature);
}

/// The payload segment of a token: the text between its first and second
/// `.` when it has exactly three segments.
pub fn jwt_payload_segment(token: &str) -> (r: Option<String>)
    ensures
        match jwt_payload(token@) {
            Some(p) => r matches Some(x) && x@ == p,
            None => r is None,
        },
{
    let chars = to_chars(token);
    let mut count: usize = 0;
    let mut seg = String::new();
    let mut i: usize = 0;
    while i < chars.len()
        invariant
            i <= chars.len(),
            chars@ == token@,
            count <= i,
            count == dots(token@.take(i as int)),
            seg@ == second_segment(token@.take(i as int)),
        decreases chars.len() - i,
    {
        let c = chars[i];
        assert(token@.take(i + 1).drop_last() == token@.take(i as int));
        if c == '.' {
            count = count + 1;
        } else if count == 1 {
            push_char(&mut seg, c);
        }
        i = i + 1;
    }
    assert(token@.take(chars.len() as int) == token@);
    if count == 2 {
        Some(seg)
    } else {
        None
    }
}

/// The ChatGPT account id a login token carries, if it carries one.
pub fn extract_chatgpt_account_id(token: &str) -> (r: Option<String>)
    ensures
        match account_id_of(token@) {
            Some(a) => r matches Some(x) && x@ == a,
            None => r is None,
        },
{
    let payload = match jwt_payload_segment(token) {
        Some(p) => p,
        None => return None,
    };
    let decoded = match decode_base64_url(payload.as_str()) {
        Some(b) => b,
        None => return None,
    };
    json_string_at(decoded.as_slice(), "https://api.openai.com/auth", "chatgpt_account_id")
}

// ---------------------------------------------------------------------------
// Address and headers
// ---------------------------------------------------------------------------

/// The address of the Responses endpoint under a base URL.
pub fn responses_url(base_url: &str) -> (u: String)
    ensures
        u@ == base_url@ + "/responses"@,
{
    let mut u = String::new();
    push_str(&mut u, base_url);
    push_str(&mut u, "/responses");
    u
}

/// The headers of a request: the bearer token, the account id when one is
/// given, then the configured extra headers.
pub open spec fn headers_of(
    token: Seq<char>,
    account: Option<Seq<char>>,
    extra: Seq<(Seq<char>, Seq<char>)>,
) -> Seq<(Seq<char>, Seq<char>)> {
    seq![("Authorization"@, "Bearer "@ + token)] + match account {
        Some(a) => seq![("chatgpt-account-id"@, a)],
        None => Seq::empty(),
    } + extra
}

/// The account id a configuration sends, given what its token carries.
pub open spec fn sent_account(wanted: bool, carried: Option<Seq<char>>) -> Option<Seq<char>> {
    if wanted {
        carried
    } else {
        None
    }
}

/// The headers of a request under a configuration, given the account id its
/// token carries (sent only when the configuration asks for it).
pub fn headers_with_account(config: &OpenAIConfig, account_id: Option<String>) -> (h: Vec<(String, String)>)
    ensures
        pair_views(h@) == headers_of(
            config.auth_token@,
            sent_account(config.include_chatgpt_account_id_header, match account_id {
                Some(a) => Some(a@),
                None => None,
            }),
            pair_views(config.extra_headers@),
        ),
{
    let mut bearer = String::new();
    push_str(&mut bearer, "Bearer ");
    push_str(&mut bearer, config.auth_token.as_str());
    let mut h: Vec<(String, String)> = Vec::new();
    h.push(("Authorization".to_owned(), bearer));
    if config.include_chatgpt_account_id_header {
        match account_id {
            Some(a) => h.push(("chatgpt-account-id".to_owned(), a)),
            None => {},
        }
    }
    let first = h.len();
    let extra = copy_pair_list(&config.extra_headers);
    let ghost before = h@;
    let mut i: usize = 0;
    while i < extra.len()
        invariant
            i <= extra.len(),
            first == before.len(),
            h@ == before + extra@.take(i as int),
        decreases extra.len() - i,
    {
        let (k, v) = (extra[i].0.clone(), extra[i].1.clone());
        h.push((k, v));
        assert(extra@.take(i + 1) == extra@.take(i as int).push(extra@[i as int]));
        i = i + 1;
    }
    assert(extra@.take(extra.len() as int) == extra@);
    assert(pair_views(h@) =~= headers_of(
        config.auth_token@,
        sent_account(config.include_chatgpt_account_id_header, match account_id {
            Some(a) => Some(a@),
            None => None,
        }),
        pair_views(config.extra_headers@),
    ));
    h
}

/// The headers of a request under a configuration: the bearer token, the
/// ChatGPT account id when the configuration asks for it and the token
/// carries one, then the extra headers.
pub fn request_headers(config: &OpenAIConfig) -> (h: Vec<(String, String)>)
    ensures
        pair_views(h@) == headers_of(
            config.auth_token@,
            sent_account(config.include_chatgpt_account_id_header, account_id_of(config.auth_token@)),
            pair_views(config.extra_headers@),
        ),
{
    let account = if config.include_chatgpt_account_id_header {
        extract_chatgpt_account_id(config.auth_token.as_str())
    } else {
        None
    };
    headers_with_account(config, account)
}

} // verus!
