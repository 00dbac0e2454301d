//! Typeahead sources: the token under the cursor, items that can be offered,
//! and a prefix filter that caches its last answer.

use vstd::prelude::*;
use vstd::string::StringSliceAdditionalSpecFns;
use vstd::utf8::*;

use crate::text::{
    ascii_lower_seq, ascii_lowercase, char_utf8_width, has_prefix, is_whitespace, is_ws,
    lemma_encode_utf8_concat, lemma_utf8_len_push, starts_with, to_chars, utf8_len, utf8_width,
};

verus! {

// ---------------------------------------------------------------------------
// The token under the cursor
// ---------------------------------------------------------------------------

/// Index (in characters) where the last white-space separated token of `s` begins.
pub open spec fn token_begin(s: Seq<char>) -> nat
    decreases s.len(),
{
    if s.len() == 0 {
        0
    } else if is_ws(s.last()) {
        s.len()
    } else {
        token_begin(s.drop_last())
    }
}

pub proof fn lemma_token_begin_bounds(s: Seq<char>)
    ensures
        token_begin(s) <= s.len(),
        forall|i: int| token_begin(s) <= i < s.len() ==> !is_ws(#[trigger] s[i]),
        token_begin(s) > 0 ==> is_ws(s[token_begin(s) - 1]),
    decreases s.len(),
{
    if s.len() > 0 && !is_ws(s.last()) {
        lemma_token_begin_bounds(s.drop_last());
        assert forall|i: int| token_begin(s) <= i < s.len() implies !is_ws(#[trigger] s[i]) by {
            if i < s.len() - 1 {
                assert(s[i] == s.drop_last()[i]);
            }
        }
        if token_begin(s) > 0 {
            assert(s[token_begin(s) - 1] == s.drop_last()[token_begin(s) - 1]);
        }
    }
}

/// The byte offset of the character index `k` in `s` is a character boundary of
/// its UTF-8 encoding, and the bytes from there on encode `s[k..]`.
pub proof fn lemma_char_boundary_at(s: Seq<char>, k: int)
    requires
        0 <= k <= s.len(),
    ensures
        is_char_boundary(encode_utf8(s), utf8_len(s.take(k)) as int),
        utf8_len(s.take(k)) <= utf8_len(s),
        encode_utf8(s).subrange(utf8_len(s.take(k)) as int, utf8_len(s) as int) == encode_utf8(
            s.skip(k),
        ),
    decreases k,
{
    encode_utf8_valid_utf8(s);
    lemma_encode_utf8_concat(s.take(k), s.skip(k));
    assert(s.take(k) + s.skip(k) == s);
    if k > 0 {
        let bytes = encode_utf8(s);
        encode_utf8_first_scalar(s);
        assert(pop_first_scalar(bytes) =~= encode_utf8(s.drop_first()));
        lemma_char_boundary_at(s.drop_first(), k - 1);
        assert(s.take(k).drop_first() == s.drop_first().take(k - 1));
        assert(s.take(k)[0] == s[0]);
        assert(utf8_len(s.take(k)) == encode_scalar(s[0] as u32).len() + utf8_len(
            s.drop_first().take(k - 1),
        ));
        char_is_scalar(s[0]);
        assert(encode_scalar(s[0] as u32).len() >= 1);
        reveal_with_fuel(is_char_boundary, 2);
    } else {
        assert(s.take(0) == Seq::<char>::empty());
        is_char_boundary_start_end_of_seq(encode_utf8(s));
    }
}

/// Byte length of the first `k` characters.
fn utf8_prefix_len(chars: &Vec<char>, k: usize, total: Ghost<nat>) -> (n: usize)
    requires
        k <= chars.len(),
        utf8_len(chars@) == total@,
        total@ <= usize::MAX,
    ensures
        n == utf8_len(chars@.take(k as int)),
{
    let mut n: usize = 0;
    let mut i: usize = 0;
    proof {
        lemma_char_boundary_at(chars@, k as int);
    }
    while i < k
        invariant
            i <= k <= chars.len(),
            n == utf8_len(chars@.take(i as int)),
            utf8_len(chars@.take(k as int)) <= total@ <= usize::MAX,
            utf8_len(chars@) == total@,
        decreases k - i,
    {
        let w = char_utf8_width(chars[i]);
        proof {
            assert(chars@.take(i + 1) == chars@.take(i as int).push(chars@[i as int]));
            lemma_utf8_len_push(chars@.take(i as int), chars@[i as int]);
            lemma_char_boundary_at(chars@.take(k as int), i + 1);
            assert(chars@.take(k as int).take(i + 1) == chars@.take(i + 1));
        }
        n = n + w;
        i = i + 1;
    }
    n
}

/// The token before the cursor is the text's last word: it starts after the
/// last white space (or at the start), holds no white space, and is empty
/// exactly when the text is empty or ends in white space (where
/// `extract_query_token` gives nothing).
pub proof fn law_query_token_is_the_last_word(s: Seq<char>)
    ensures
        token_begin(s) <= s.len(),
        forall|i: int| token_begin(s) <= i < s.len() ==> !is_ws(#[trigger] s[i]),
        token_begin(s) > 0 ==> is_ws(s[token_begin(s) - 1]),
        token_begin(s) == s.len() <==> (s.len() == 0 || is_ws(s.last())),
{
    lemma_token_begin_bounds(s);
    if s.len() > 0 && !is_ws(s.last()) {
        lemma_token_begin_bounds(s.drop_last());
    }
}

/// Splits the text before the cursor into its last token: the byte offset where
/// the token begins, its first character (the leader) and the rest of it.
/// Gives nothing when the text ends in white space or is empty.
pub fn extract_query_token(cursor_prefix: &str) -> (r: Option<(usize, char, &str)>)
    ensures
        match r {
            None => token_begin(cursor_prefix@) == cursor_prefix@.len(),
            Some((start, leader, query)) => {
                let b = token_begin(cursor_prefix@) as int;
                &&& b < cursor_prefix@.len()
                &&& start == utf8_len(cursor_prefix@.take(b))
                &&& leader == cursor_prefix@[b]
                &&& query@ == cursor_prefix@.skip(b + 1)
            },
        },
{
    let chars = to_chars(cursor_prefix);
    let ghost s = cursor_prefix@;
    let mut b: usize = chars.len();
    assert(s.take(s.len() as int) == s);
    while b > 0 && !is_whitespace(chars[b - 1])
        invariant
            b <= chars.len(),
            chars@ == s,
            token_begin(s) == token_begin(s.take(b as int)),
        decreases b,
    {
        assert(s.take(b as int).drop_last() == s.take(b - 1));
        b = b - 1;
    }
    proof {
        assert(s.take(s.len() as int) == s);
        if b > 0 {
            assert(s.take(b as int).last() == s[b - 1]);
        } else {
            assert(s.take(0) == Seq::<char>::empty());
        }
    }
    if b == chars.len() {
        return None;
    }
    let ghost total = utf8_len(s);
    let bytes = cursor_prefix.as_bytes();
    let nbytes = bytes.len();
    assert(nbytes == total);
    let start = utf8_prefix_len(&chars, b, Ghost(total));
    let leader = chars[b];
    let after = utf8_prefix_len(&chars, b + 1, Ghost(total));
    proof {
        lemma_char_boundary_at(s, (b + 1) as int);
    }
    let (_, query) = cursor_prefix.split_at(after);
    proof {
        encode_utf8_decode_utf8(query@);
        encode_utf8_decode_utf8(s.skip(b + 1));
    }
    Some((start, leader, query))
}

// ---------------------------------------------------------------------------
// Items and sources
// ---------------------------------------------------------------------------

/// The characters of each string.
pub open spec fn strings_view(v: Seq<String>) -> Seq<Seq<char>> {
    v.map_values(|s: String| s@)
}

/// Something a typeahead can offer: the text it inserts, an optional
/// description, and the terms a query is matched against.
pub trait TypeaheadItem: Clone + Sized {
    spec fn token_view(&self) -> Seq<char>;

    spec fn terms_view(&self) -> Seq<Seq<char>>;

    fn token_text(&self) -> (s: String)
        ensures
            s@ == self.token_view(),
    ;

    spec fn description_view(&self) -> Option<Seq<char>>;

    fn description(&self) -> (d: Option<String>)
        ensures
            match self.description_view() {
                Some(v) => d matches Some(t) && t@ == v,
                None => d is None,
            },
    ;

    fn match_terms(&self) -> (v: Vec<String>)
        ensures
            strings_view(v@) == self.terms_view(),
    ;
}

/// The matches offered for the token under the cursor.
#[derive(Debug, Clone, PartialEq, Eq)]
pub struct TypeaheadMatchSet<T> {
    pub leader: char,
    pub query: String,
    pub token_start: usize,
    pub cursor_pos: usize,
    pub loading: bool,
    pub show_loading: bool,
    pub matches: Vec<T>,
}

/// What a source answered for one query, and whether it is still working on it.
#[derive(Debug, Clone, PartialEq, Eq)]
pub struct TypeaheadQueryResult<T> {
    pub matches: Vec<T>,
    pub loading: bool,
}

/// A source of typeahead items that answers queries from its own state.
pub trait TypeaheadSource<T: TypeaheadItem> {
    type State;

    fn init(self) -> Self::State;

    fn query(state: &mut Self::State, query: &str) -> Vec<T>;
}

// ---------------------------------------------------------------------------
// Prefix filtering with a cache
// ---------------------------------------------------------------------------

/// Whether an item with the (lower-cased) `terms` matches the (lower-cased) query:
/// the empty query matches everything, otherwise some term starts with it.
pub open spec fn terms_match(terms: Seq<Seq<char>>, q: Seq<char>) -> bool {
    q.len() == 0 || exists|k: int| 0 <= k < terms.len() && starts_with(#[trigger] terms[k], q)
}

/// Indices below `n` of the items that match `q`, in increasing order.
pub open spec fn matching_upto(terms: Seq<Seq<Seq<char>>>, q: Seq<char>, n: nat) -> Seq<usize>
    decreases n,
{
    if n == 0 {
        Seq::<usize>::empty()
    } else {
        let prev = matching_upto(terms, q, (n - 1) as nat);
        if terms_match(terms[n - 1], q) {
            prev.push((n - 1) as usize)
        } else {
            prev
        }
    }
}

/// Indices of all the items that match `q`, in increasing order.
pub open spec fn matching(terms: Seq<Seq<Seq<char>>>, q: Seq<char>) -> Seq<usize> {
    matching_upto(terms, q, terms.len())
}

/// The candidates, in their order, that match `q`.
pub open spec fn filter_by(cands: Seq<usize>, terms: Seq<Seq<Seq<char>>>, q: Seq<char>) -> Seq<
    usize,
>
    decreases cands.len(),
{
    if cands.len() == 0 {
        Seq::<usize>::empty()
    } else {
        let prev = filter_by(cands.drop_last(), terms, q);
        if terms_match(terms[cands.last() as int], q) {
            prev.push(cands.last())
        } else {
            prev
        }
    }
}

/// Whatever matches a longer query matches every prefix of it.
pub proof fn lemma_terms_match_prefix(terms: Seq<Seq<char>>, q1: Seq<char>, q2: Seq<char>)
    requires
        starts_with(q2, q1),
        terms_match(terms, q2),
    ensures
        terms_match(terms, q1),
{
    if q1.len() > 0 {
        let k = choose|k: int| 0 <= k < terms.len() && starts_with(#[trigger] terms[k], q2);
        assert(terms[k].take(q1.len() as int) == terms[k].take(q2.len() as int).take(
            q1.len() as int,
        ));
        assert(q2.take(q1.len() as int) == q1);
        assert(starts_with(terms[k], q1));
    }
}

pub proof fn lemma_matching_bounds(terms: Seq<Seq<Seq<char>>>, q: Seq<char>, n: nat)
    requires
        n <= terms.len(),
        terms.len() <= usize::MAX,
    ensures
        forall|i: int|
            0 <= i < matching_upto(terms, q, n).len() ==> #[trigger] matching_upto(terms, q, n)[i]
                < n,
        matching_upto(terms, q, n).len() <= n,
    decreases n,
{
    if n > 0 {
        lemma_matching_bounds(terms, q, (n - 1) as nat);
    }
}

/// Filtering the matches of a query by a longer query gives the matches of the
/// longer one: this is what lets the cache answer a growing query.
pub proof fn lemma_filter_matching(
    terms: Seq<Seq<Seq<char>>>,
    q1: Seq<char>,
    q2: Seq<char>,
    n: nat,
)
    requires
        starts_with(q2, q1),
        n <= terms.len(),
        terms.len() <= usize::MAX,
    ensures
        filter_by(matching_upto(terms, q1, n), terms, q2) == matching_upto(terms, q2, n),
    decreases n,
{
    if n > 0 {
        lemma_filter_matching(terms, q1, q2, (n - 1) as nat);
        let m1 = matching_upto(terms, q1, n);
        if terms_match(terms[n - 1], q1) {
            assert(m1.drop_last() == matching_upto(terms, q1, (n - 1) as nat));
            assert(m1.last() == (n - 1) as usize);
        } else if terms_match(terms[n - 1], q2) {
            lemma_terms_match_prefix(terms[n - 1], q1, q2);
        }
    }
}

struct CachedEntry<T> {
    item: T,
    terms_lower: Vec<String>,
}

struct FilterCache {
    query: String,
    indices: Vec<usize>,
}

/// A fixed list of items filtered by term prefix, ASCII case-insensitively.
/// It remembers its last query and answer, and answers a query that extends the
/// last one by filtering the last answer only.
pub struct CachedPrefixSource<T: TypeaheadItem> {
    entries: Vec<CachedEntry<T>>,
    cache: FilterCache,
}

impl<T: TypeaheadItem> CachedPrefixSource<T> {
    /// The items, in the order they were given.
    pub closed spec fn items(&self) -> Seq<T> {
        Seq::new(self.entries.len() as nat, |i: int| self.entries[i].item)
    }

    /// The lower-cased match terms of each item.
    pub closed spec fn item_terms(&self) -> Seq<Seq<Seq<char>>> {
        Seq::new(self.entries.len() as nat, |i: int| strings_view(self.entries[i].terms_lower@))
    }

    #[verifier::type_invariant]
    closed spec fn cache_is_current(&self) -> bool {
        self.cache.indices@ == matching(self.item_terms(), self.cache.query@)
    }

    /// A source over `items`; the empty query matches all of them.
    pub fn from_items(items: Vec<T>) -> (s: Self)
        ensures
            s.items() == items@,
            s.item_terms().len() == items@.len(),
            forall|i: int|
                0 <= i < items@.len() ==> #[trigger] s.item_terms()[i] == items@[i].terms_view().map_values(
                    |t: Seq<char>| ascii_lower_seq(t),
                ),
    {
        let ghost orig = items@;
        let mut entries: Vec<CachedEntry<T>> = Vec::new();
        let mut indices: Vec<usize> = Vec::new();
        for item in it: items.into_iter()
            invariant
                it.seq() == orig,
                entries.len() == it.index(),
                forall|i: int| 0 <= i < entries.len() ==> (#[trigger] entries@[i]).item == orig[i],
                forall|i: int|
                    0 <= i < entries.len() ==> strings_view(#[trigger] entries@[i].terms_lower@)
                        == orig[i].terms_view().map_values(|t: Seq<char>| ascii_lower_seq(t)),
                indices@ == Seq::new(entries.len() as nat, |i: int| i as usize),
        {
            let terms = item.match_terms();
            let mut lowered: Vec<String> = Vec::new();
            for k in 0..terms.len()
                invariant
                    lowered.len() == k,
                    forall|j: int|
                        0 <= j < k ==> (#[trigger] lowered@[j])@ == ascii_lower_seq(terms@[j]@),
            {
                let l = ascii_lowercase(terms[k].as_str());
                lowered.push(l);
            }
            proof {
                let tv = item.terms_view();
                assert(tv == strings_view(terms@));
                assert(strings_view(lowered@) =~= tv.map_values(|t: Seq<char>| ascii_lower_seq(t)))
                    by {
                    assert forall|j: int| 0 <= j < lowered@.len() implies strings_view(lowered@)[j]
                        == tv.map_values(|t: Seq<char>| ascii_lower_seq(t))[j] by {
                        assert(tv[j] == terms@[j]@);
                    }
                }
            }
            indices.push(entries.len());
            entries.push(CachedEntry { item, terms_lower: lowered });
            proof {
                assert(indices@ =~= Seq::new(entries.len() as nat, |i: int| i as usize));
            }
        }
        let ghost terms = Seq::new(
            entries.len() as nat,
            |i: int| strings_view(entries@[i].terms_lower@),
        );
        proof {
            lemma_matching_all(terms, terms.len());
        }
        let empty = String::new();
        assert(empty@ == Seq::<char>::empty());
        let s = CachedPrefixSource { entries, cache: FilterCache { query: empty, indices } };
        proof {
            assert(s.items() =~= orig);
        }
        s
    }

    /// The items whose terms match the query (ASCII case-insensitively), in the
    /// order they were given. The answer does not depend on earlier queries.
    pub fn query_matches(&mut self, query: &str) -> (r: Vec<T>)
        ensures
            final(self).items() == old(self).items(),
            final(self).item_terms() == old(self).item_terms(),
            ({
                let ranked = matching(old(self).item_terms(), ascii_lower_seq(query@));
                &&& r.len() == ranked.len()
                &&& forall|i: int|
                    0 <= i < r.len() ==> cloned(old(self).items()[ranked[i] as int], #[trigger] r@[i])
            }),
    {
        proof {
            use_type_invariant(&*self);
        }
        let normalized = ascii_lowercase(query);
        let ghost terms = self.item_terms();
        proof {
            lemma_matching_bounds(terms, self.cache.query@, terms.len());
            lemma_matching_bounds(terms, normalized@, terms.len());
        }
        if normalized == self.cache.query {
            return self.items_at(&self.cache.indices);
        }
        let qchars = to_chars(normalized.as_str());
        let cached_chars = to_chars(self.cache.query.as_str());
        let growing = has_prefix(qchars.as_slice(), cached_chars.as_slice());
        let mut filtered: Vec<usize> = Vec::new();
        if growing {
            let cands = &self.cache.indices;
            for j in 0..cands.len()
                invariant
                    terms == self.item_terms(),
                    cands@ == matching(terms, self.cache.query@),
                    forall|i: int| 0 <= i < cands@.len() ==> #[trigger] cands@[i] < terms.len(),
                    qchars@ == normalized@,
                    filtered@ == filter_by(cands@.take(j as int), terms, normalized@),
                    terms.len() == self.entries.len(),
            {
                let idx = cands[j];
                let hit = matches_cached_entry(&self.entries[idx].terms_lower, &qchars);
                proof {
                    assert(cands@.take(j + 1).drop_last() == cands@.take(j as int));
                }
                if hit {
                    filtered.push(idx);
                }
            }
            proof {
                assert(cands@.take(cands.len() as int) == cands@);
                lemma_filter_matching(terms, self.cache.query@, normalized@, terms.len());
            }
        } else {
            for idx in 0..self.entries.len()
                invariant
                    terms == self.item_terms(),
                    qchars@ == normalized@,
                    filtered@ == matching_upto(terms, normalized@, idx as nat),
                    terms.len() == self.entries.len(),
            {
                let hit = matches_cached_entry(&self.entries[idx].terms_lower, &qchars);
                if hit {
                    filtered.push(idx);
                }
            }
        }
        self.cache = FilterCache { query: normalized, indices: filtered };
        self.items_at(&self.cache.indices)
    }

    fn items_at(&self, indices: &Vec<usize>) -> (r: Vec<T>)
        requires
            forall|i: int| 0 <= i < indices@.len() ==> #[trigger] indices@[i] < self.entries.len(),
        ensures
            r.len() == indices.len(),
            forall|i: int|
                0 <= i < r.len() ==> cloned(self.items()[indices@[i] as int], #[trigger] r@[i]),
    {
        let mut r: Vec<T> = Vec::new();
        for j in 0..indices.len()
            invariant
                r.len() == j,
                forall|i: int| 0 <= i < indices@.len() ==> #[trigger] indices@[i] < self.entries.len(),
                forall|i: int|
                    0 <= i < j ==> cloned(self.items()[indices@[i] as int], #[trigger] r@[i]),
        {
            let c = self.entries[indices[j]].item.clone();
            r.push(c);
        }
        r
    }
}

/// `matching` of the empty query is every index.
proof fn lemma_matching_all(terms: Seq<Seq<Seq<char>>>, n: nat)
    requires
        n <= terms.len(),
        terms.len() <= usize::MAX,
    ensures
        matching_upto(terms, Seq::<char>::empty(), n) == Seq::new(n, |i: int| i as usize),
    decreases n,
{
    if n > 0 {
        lemma_matching_all(terms, (n - 1) as nat);
    }
}

/// Whether some term starts with the query; the empty query always matches.
fn matches_cached_entry(terms: &Vec<String>, query: &Vec<char>) -> (b: bool)
    ensures
        b == terms_match(strings_view(terms@), query@),
{
    if query.len() == 0 {
        return true;
    }
    for k in 0..terms.len()
        invariant
            query.len() > 0,
            forall|j: int| 0 <= j < k ==> !starts_with(#[trigger] strings_view(terms@)[j], query@),
    {
        let tc = to_chars(terms[k].as_str());
        if has_prefix(tc.as_slice(), query.as_slice()) {
            assert(starts_with(strings_view(terms@)[k as int], query@));
            return true;
        }
    }
    false
}

impl<T: TypeaheadItem> TypeaheadSource<T> for CachedPrefixSource<T> {
    type State = Self;

    fn init(self) -> (s: Self) {
        self
    }

    fn query(state: &mut Self, query: &str) -> (r: Vec<T>)
        ensures
            final(state).items() == old(state).items(),
            ({
                let ranked = matching(old(state).item_terms(), ascii_lower_seq(query@));
                &&& r.len() == ranked.len()
                &&& forall|i: int|
                    0 <= i < r.len() ==> cloned(old(state).items()[ranked[i] as int], #[trigger] r@[i])
            }),
    {
        state.query_matches(query)
    }
}

} // verus!
