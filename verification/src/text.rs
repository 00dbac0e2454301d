//! Character-level text helpers shared by the tools and the typeahead.

use vstd::prelude::*;
use vstd::utf8::*;

verus! {

// ---------------------------------------------------------------------------
// Character classes
// ---------------------------------------------------------------------------

/// Unicode `White_Space`, the set that `char::is_whitespace` tests.
pub open spec fn is_ws(c: char) -> bool {
    let v = c as u32;
    ||| (0x09 <= v <= 0x0D)
    ||| v == 0x20
    ||| v == 0x85
    ||| v == 0xA0
    ||| v == 0x1680
    ||| (0x2000 <= v <= 0x200A)
    ||| v == 0x2028
    ||| v == 0x2029
    ||| v == 0x202F
    ||| v == 0x205F
    ||| v == 0x3000
}

/// Whether `c` is Unicode white space.
pub fn is_whitespace(c: char) -> (b: bool)
    ensures
        b == is_ws(c),
{
    let v = c as u32;
    (0x09 <= v && v <= 0x0D) || v == 0x20 || v == 0x85 || v == 0xA0 || v == 0x1680 || (0x2000 <= v
        && v <= 0x200A) || v == 0x2028 || v == 0x2029 || v == 0x202F || v == 0x205F || v == 0x3000
}

pub open spec fn is_ascii_hex(c: char) -> bool {
    ('0' <= c && c <= '9') || ('a' <= c && c <= 'f') || ('A' <= c && c <= 'F')
}

pub open spec fn is_ascii_digit(c: char) -> bool {
    '0' <= c && c <= '9'
}

/// ASCII lower-casing of one character (`char::to_ascii_lowercase`).
pub open spec fn ascii_lower(c: char) -> char {
    if 'A' <= c && c <= 'Z' {
        ((c as u32) + 32) as char
    } else {
        c
    }
}

pub open spec fn ascii_lower_seq(s: Seq<char>) -> Seq<char> {
    Seq::new(s.len(), |i: int| ascii_lower(s[i]))
}

pub fn to_ascii_lower_char(c: char) -> (r: char)
    ensures
        r == ascii_lower(c),
{
    if 'A' <= c && c <= 'Z' {
        let v = (c as u32) + 32;
        let r = char_from_ascii(v);
        r
    } else {
        c
    }
}

/// The character with an ASCII code point.
fn char_from_ascii(v: u32) -> (c: char)
    requires
        v < 128,
    ensures
        c as u32 == v,
{
    let b = v as u8;
    let c = b as char;
    c
}

// ---------------------------------------------------------------------------
// Building strings
// ---------------------------------------------------------------------------

/// Appends one character to a string (`String::push`).
#[verifier::external_body]
pub fn push_char(s: &mut String, c: char)
    ensures
        final(s)@ == old(s)@.push(c),
{
    s.push(c);
}

/// The characters of a string slice, in order.
pub fn to_chars(s: &str) -> (out: Vec<char>)
    ensures
        out@ == s@,
{
    let mut out: Vec<char> = Vec::new();
    for c in it: s.chars()
        invariant
            out@ == it.seq().take(it.index() as int),
            it.seq() == s@,
    {
        out.push(c);
    }
    out
}

/// Appends a run of characters to a string.
pub fn push_chars(s: &mut String, chars: &[char])
    ensures
        final(s)@ == old(s)@ + chars@,
{
    let ghost start = s@;
    for i in 0..chars.len()
        invariant
            s@ == start + chars@.take(i as int),
    {
        push_char(s, chars[i]);
        assert(chars@.take(i + 1) == chars@.take(i as int).push(chars@[i as int]));
    }
    assert(chars@.take(chars.len() as int) == chars@);
}

/// A string holding exactly the given characters.
pub fn string_from_chars(chars: &[char]) -> (s: String)
    ensures
        s@ == chars@,
{
    let mut s = String::new();
    push_chars(&mut s, chars);
    s
}

/// The characters `chars[from..to]` as a string.
pub fn string_from_range(chars: &[char], from: usize, to: usize) -> (s: String)
    requires
        from <= to <= chars.len(),
    ensures
        s@ == chars@.subrange(from as int, to as int),
{
    let mut s = String::new();
    let mut i = from;
    while i < to
        invariant
            from <= i <= to <= chars.len(),
            s@ == chars@.subrange(from as int, i as int),
        decreases to - i,
    {
        push_char(&mut s, chars[i]);
        assert(chars@.subrange(from as int, i + 1) == chars@.subrange(from as int, i as int).push(
            chars@[i as int],
        ));
        i = i + 1;
    }
    s
}

/// Appends a string slice to a string.
pub fn push_str(s: &mut String, t: &str)
    ensures
        final(s)@ == old(s)@ + t@,
{
    let cs = to_chars(t);
    push_chars(s, cs.as_slice());
}

// ---------------------------------------------------------------------------
// Decimal numbers
// ---------------------------------------------------------------------------

pub open spec fn digit_char(d: nat) -> char {
    (('0' as u32) + d) as char
}

/// The decimal digits of `n`, as `{n}` prints them.
pub open spec fn decimal(n: nat) -> Seq<char>
    decreases n,
{
    if n < 10 {
        seq![digit_char(n)]
    } else {
        decimal(n / 10).push(digit_char(n % 10))
    }
}

/// A signed number as `{n}` prints it.
pub open spec fn signed_decimal(n: int) -> Seq<char> {
    if n < 0 {
        seq!['-'] + decimal((-n) as nat)
    } else {
        decimal(n as nat)
    }
}

fn digit(d: u128) -> (c: char)
    requires
        d < 10,
    ensures
        c == digit_char(d as nat),
{
    char_from_ascii((48 + d) as u32)
}

/// The decimal digits of `n`.
pub fn decimal_chars(n: u128) -> (out: Vec<char>)
    ensures
        out@ == decimal(n as nat),
    decreases n,
{
    if n < 10 {
        let mut v = Vec::new();
        v.push(digit(n));
        v
    } else {
        let mut v = decimal_chars(n / 10);
        v.push(digit(n % 10));
        v
    }
}

/// Appends the decimal digits of `n`.
pub fn push_usize(s: &mut String, n: usize)
    ensures
        final(s)@ == old(s)@ + decimal(n as nat),
{
    let ds = decimal_chars(n as u128);
    push_chars(s, ds.as_slice());
}

/// Appends the decimal digits of `n + 1`.
pub fn push_successor(s: &mut String, n: usize)
    ensures
        final(s)@ == old(s)@ + decimal(n as nat + 1),
{
    let ds = decimal_chars(n as u128 + 1);
    push_chars(s, ds.as_slice());
}

/// Appends a signed number in decimal.
pub fn push_i32(s: &mut String, n: i32)
    ensures
        final(s)@ == old(s)@ + signed_decimal(n as int),
{
    if n < 0 {
        push_char(s, '-');
        let m: i64 = -(n as i64);
        let ds = decimal_chars(m as u128);
        push_chars(s, ds.as_slice());
        assert(seq!['-'] + decimal((-(n as int)) as nat) == seq!['-'].add(ds@));
    } else {
        push_usize(s, n as usize);
    }
}

// ---------------------------------------------------------------------------
// UTF-8 lengths
// ---------------------------------------------------------------------------

/// Number of bytes of the UTF-8 encoding of `c`.
pub open spec fn utf8_width(c: char) -> nat {
    encode_scalar(c as u32).len()
}

/// Number of bytes of the UTF-8 encoding of `s`.
pub open spec fn utf8_len(s: Seq<char>) -> nat {
    encode_utf8(s).len()
}

pub proof fn lemma_encode_utf8_concat(a: Seq<char>, b: Seq<char>)
    ensures
        encode_utf8(a + b) == encode_utf8(a) + encode_utf8(b),
    decreases a.len(),
{
    if a.len() == 0 {
        assert(a + b == b);
    } else {
        lemma_encode_utf8_concat(a.drop_first(), b);
        assert((a + b).drop_first() == a.drop_first() + b);
    }
}

pub proof fn lemma_utf8_len_push(s: Seq<char>, c: char)
    ensures
        utf8_len(s.push(c)) == utf8_len(s) + utf8_width(c),
{
    lemma_encode_utf8_concat(s, seq![c]);
    assert(s.push(c) == s + seq![c]);
    assert(seq![c].drop_first() == Seq::<char>::empty());
    assert(encode_utf8(seq![c]) == encode_scalar(c as u32) + encode_utf8(Seq::<char>::empty()));
    assert(encode_utf8(seq![c]) == encode_scalar(c as u32));
}

/// `char::len_utf8`.
pub fn char_utf8_width(c: char) -> (n: usize)
    ensures
        n == utf8_width(c),
        1 <= n <= 4,
{
    let v = c as u32;
    proof {
        char_is_scalar(c);
    }
    if v <= 0x7F {
        1
    } else if v <= 0x7FF {
        2
    } else if v <= 0xFFFF {
        3
    } else {
        4
    }
}


// ---------------------------------------------------------------------------
// Trimming, searching, parsing
// ---------------------------------------------------------------------------

/// `s` without leading white space.
pub open spec fn trim_start(s: Seq<char>) -> Seq<char>
    decreases s.len(),
{
    if s.len() > 0 && is_ws(s[0]) {
        trim_start(s.drop_first())
    } else {
        s
    }
}

/// `s` without trailing white space.
pub open spec fn trim_end(s: Seq<char>) -> Seq<char>
    decreases s.len(),
{
    if s.len() > 0 && is_ws(s.last()) {
        trim_end(s.drop_last())
    } else {
        s
    }
}

/// `str::trim`: `s` without leading and trailing white space.
pub open spec fn trim(s: Seq<char>) -> Seq<char> {
    trim_end(trim_start(s))
}

/// The bounds `(start, end)` of the trimmed part of `s`.
pub fn trim_bounds(s: &Vec<char>) -> (r: (usize, usize))
    ensures
        r.0 <= r.1 <= s.len(),
        s@.subrange(r.0 as int, r.1 as int) == trim(s@),
{
    let mut start: usize = 0;
    assert(s@.subrange(0, s.len() as int) == s@);
    while start < s.len() && is_whitespace(s[start])
        invariant
            start <= s.len(),
            trim_start(s@) == trim_start(s@.subrange(start as int, s.len() as int)),
        decreases s.len() - start,
    {
        assert(s@.subrange(start as int, s.len() as int).drop_first() == s@.subrange(
            start + 1,
            s.len() as int,
        ));
        start = start + 1;
    }
    let mut end: usize = s.len();
    assert(trim_start(s@) == s@.subrange(start as int, s.len() as int));
    while end > start && is_whitespace(s[end - 1])
        invariant
            start <= end <= s.len(),
            trim(s@) == trim_end(s@.subrange(start as int, end as int)),
        decreases end - start,
    {
        assert(s@.subrange(start as int, end as int).drop_last() == s@.subrange(
            start as int,
            end - 1,
        ));
        end = end - 1;
    }
    (start, end)
}

/// The trimmed text as a string.
pub fn trim_str(s: &str) -> (out: String)
    ensures
        out@ == trim(s@),
{
    let cs = to_chars(s);
    let (a, b) = trim_bounds(&cs);
    string_from_range(cs.as_slice(), a, b)
}

/// Position of the first `c` in `s`.
pub open spec fn find_char(s: Seq<char>, c: char) -> Option<nat>
    decreases s.len(),
{
    if s.len() == 0 {
        None
    } else if s[0] == c {
        Some(0)
    } else {
        match find_char(s.drop_first(), c) {
            Some(k) => Some(k + 1),
            None => None,
        }
    }
}

pub proof fn lemma_find_char(s: Seq<char>, c: char, i: int)
    requires
        0 <= i <= s.len(),
        forall|k: int| 0 <= k < i ==> s[k] != c,
    ensures
        i < s.len() && s[i] == c ==> find_char(s, c) == Some(i as nat),
        i == s.len() ==> find_char(s, c) is None,
    decreases s.len(),
{
    if i > 0 {
        lemma_find_char(s.drop_first(), c, i - 1);
    } else if s.len() > 0 && s[0] != c {
        lemma_find_char(s.drop_first(), c, 0);
    }
}

pub proof fn lemma_find_char_bound(s: Seq<char>, c: char)
    ensures
        find_char(s, c) matches Some(i) ==> i < s.len(),
    decreases s.len(),
{
    if s.len() > 0 && s[0] != c {
        lemma_find_char_bound(s.drop_first(), c);
    }
}

/// The UTF-8 length of a part of `s` is at most that of `s`.
pub proof fn lemma_utf8_len_sub(s: Seq<char>, a: int, b: int)
    requires
        0 <= a <= b <= s.len(),
    ensures
        utf8_len(s.subrange(a, b)) <= utf8_len(s),
{
    lemma_encode_utf8_concat(s.take(a), s.subrange(a, s.len() as int));
    assert(s.take(a) + s.subrange(a, s.len() as int) == s);
    lemma_encode_utf8_concat(s.subrange(a, b), s.subrange(b, s.len() as int));
    assert(s.subrange(a, b) + s.subrange(b, s.len() as int) == s.subrange(a, s.len() as int));
}

/// Position of the first `c` in `s`.
pub fn find_first(s: &Vec<char>, c: char) -> (r: Option<usize>)
    ensures
        match r {
            Some(k) => find_char(s@, c) == Some(k as nat) && k < s.len(),
            None => find_char(s@, c) is None,
        },
{
    let mut i: usize = 0;
    while i < s.len()
        invariant
            i <= s.len(),
            forall|k: int| 0 <= k < i ==> s@[k] != c,
        decreases s.len() - i,
    {
        if s[i] == c {
            proof {
                lemma_find_char(s@, c, i as int);
            }
            return Some(i);
        }
        i = i + 1;
    }
    proof {
        lemma_find_char(s@, c, i as int);
    }
    None
}

/// Value of a run of decimal digits.
pub open spec fn digits_value(ds: Seq<char>) -> nat
    decreases ds.len(),
{
    if ds.len() == 0 {
        0
    } else {
        digits_value(ds.drop_last()) * 10 + ((ds.last() as u32) - 48) as nat
    }
}

pub open spec fn all_digits(ds: Seq<char>) -> bool {
    forall|i: int| 0 <= i < ds.len() ==> is_ascii_digit(#[trigger] ds[i])
}

/// `str::parse::<usize>`: an optional `+`, then one or more ASCII digits
/// whose value fits.
pub open spec fn parse_usize_spec(s: Seq<char>) -> Option<usize> {
    let ds = if s.len() > 0 && s[0] == '+' {
        s.drop_first()
    } else {
        s
    };
    if ds.len() > 0 && all_digits(ds) && digits_value(ds) <= usize::MAX {
        Some(digits_value(ds) as usize)
    } else {
        None
    }
}

proof fn lemma_digits_value_grows(ds: Seq<char>, k: int)
    requires
        0 <= k <= ds.len(),
        all_digits(ds),
    ensures
        digits_value(ds.take(k)) <= digits_value(ds),
    decreases ds.len() - k,
{
    if k < ds.len() {
        lemma_digits_value_grows(ds, k + 1);
        assert(ds.take(k + 1).drop_last() == ds.take(k));
    } else {
        assert(ds.take(k) == ds);
    }
}

/// Parses `chars[from..]` as `str::parse::<usize>` does.
pub fn parse_usize(s: &Vec<char>, from: usize, to: usize) -> (r: Option<usize>)
    requires
        from <= to <= s.len(),
    ensures
        r == parse_usize_spec(s@.subrange(from as int, to as int)),
{
    let ghost whole = s@.subrange(from as int, to as int);
    let mut start = from;
    if from < to && s[from] == '+' {
        start = from + 1;
        assert(whole.drop_first() == s@.subrange(start as int, to as int));
    }
    let ghost ds = s@.subrange(start as int, to as int);
    assert(ds == (if whole.len() > 0 && whole[0] == '+' {
        whole.drop_first()
    } else {
        whole
    }));
    if start == to {
        return None;
    }
    let mut acc: usize = 0;
    let mut i = start;
    while i < to
        invariant
            start <= i <= to <= s.len(),
            ds == s@.subrange(start as int, to as int),
            whole == s@.subrange(from as int, to as int),
            ds == (if whole.len() > 0 && whole[0] == '+' {
                whole.drop_first()
            } else {
                whole
            }),
            acc as nat == digits_value(ds.take(i - start)),
            all_digits(ds.take(i - start)),
        decreases to - i,
    {
        let c = s[i];
        assert(ds[i - start] == c);
        if !('0' <= c && c <= '9') {
            assert(!all_digits(ds));
            return None;
        }
        let d = (c as u32 - 48) as usize;
        assert(ds.take(i - start + 1).drop_last() == ds.take(i - start));
        assert(ds.take(i - start + 1).last() == c);
        assert(digits_value(ds.take(i - start + 1)) == acc * 10 + d);
        assert(all_digits(ds.take(i - start + 1))) by {
            assert forall|k: int| 0 <= k < ds.take(i - start + 1).len() implies is_ascii_digit(
                #[trigger] ds.take(i - start + 1)[k],
            ) by {
                if k < i - start {
                    assert(ds.take(i - start + 1)[k] == ds.take(i - start)[k]);
                }
            }
        }
        if acc > (usize::MAX - d) / 10 {
            proof {
                assert(acc * 10 + d > usize::MAX) by (nonlinear_arith)
                    requires
                        acc > (usize::MAX - d) / 10,
                        d <= 9,
                ;
                if all_digits(ds) {
                    lemma_digits_value_grows(ds, i - start + 1);
                }
            }
            return None;
        }
        assert(acc * 10 + d <= usize::MAX) by (nonlinear_arith)
            requires
                acc <= (usize::MAX - d) / 10,
                d <= 9,
        ;
        acc = acc * 10 + d;
        i = i + 1;
    }
    assert(ds.take(ds.len() as int) == ds);
    Some(acc)
}

/// `str::to_ascii_lowercase`.
pub fn ascii_lowercase(s: &str) -> (out: String)
    ensures
        out@ == ascii_lower_seq(s@),
{
    let cs = to_chars(s);
    let mut out = String::new();
    for i in 0..cs.len()
        invariant
            cs@ == s@,
            out@ == ascii_lower_seq(s@.take(i as int)),
    {
        let c = to_ascii_lower_char(cs[i]);
        push_char(&mut out, c);
        assert(ascii_lower_seq(s@.take(i + 1)) == ascii_lower_seq(s@.take(i as int)).push(c));
    }
    assert(s@.take(cs.len() as int) == s@);
    out
}

/// Whether `p` is a prefix of `s`.
pub open spec fn starts_with(s: Seq<char>, p: Seq<char>) -> bool {
    p.len() <= s.len() && s.take(p.len() as int) == p
}

/// `str::starts_with` on character sequences.
pub fn has_prefix(s: &[char], p: &[char]) -> (b: bool)
    ensures
        b == starts_with(s@, p@),
{
    if p.len() > s.len() {
        return false;
    }
    let mut i: usize = 0;
    while i < p.len()
        invariant
            p.len() <= s.len(),
            i <= p.len(),
            s@.take(i as int) == p@.take(i as int),
        decreases p.len() - i,
    {
        if s[i] != p[i] {
            assert(s@.take(p.len() as int)[i as int] != p@[i as int]);
            return false;
        }
        assert(s@.take(i + 1) == s@.take(i as int).push(s@[i as int]));
        assert(p@.take(i + 1) == p@.take(i as int).push(p@[i as int]));
        i = i + 1;
    }
    assert(p@.take(p.len() as int) == p@);
    true
}

} // verus!
