//! Hashline addressing: each line of a file is shown as `line:hash|content`,
//! and edits name lines by such `line:hash` anchors.

use vstd::prelude::*;
use vstd::string::StringSliceAdditionalSpecFns;
use vstd::utf8::*;

use crate::text::{
    decimal, find_char, find_first, has_prefix, is_ascii_hex, parse_usize, parse_usize_spec,
    push_char, push_str, push_successor, push_usize, starts_with, to_chars, trim, trim_bounds, trim_str, utf8_len,
};

verus! {

/// Upper bound on the number of lines one read returns.
pub const MAX_READ_LIMIT: usize = 20_000;

/// Number of hex characters of a line hash shown in a hashline.
pub const HASH_PREFIX_LEN: usize = 4;

// ---------------------------------------------------------------------------
// Line hashes
// ---------------------------------------------------------------------------

pub open spec fn fnv_offset() -> u64 {
    0xcbf29ce484222325u64
}

pub open spec fn fnv_prime() -> u64 {
    0x100000001b3u64
}

/// FNV-1a, 64 bit.
pub open spec fn fnv1a(bytes: Seq<u8>) -> u64
    decreases bytes.len(),
{
    if bytes.len() == 0 {
        fnv_offset()
    } else {
        (fnv1a(bytes.drop_last()) ^ (bytes.last() as u64)).wrapping_mul(fnv_prime())
    }
}

/// Lower-case hex digit of a value below 16.
pub open spec fn hex_digit(v: u64) -> char {
    if v < 10 {
        ((48 + v) as u32) as char
    } else {
        ((87 + v) as u32) as char
    }
}

/// The first four characters of `{h:016x}`.
pub open spec fn hex_prefix(h: u64) -> Seq<char> {
    seq![
        hex_digit(h >> 60u64),
        hex_digit((h >> 56u64) & 15u64),
        hex_digit((h >> 52u64) & 15u64),
        hex_digit((h >> 48u64) & 15u64),
    ]
}

/// The hash prefix shown for a line.
pub open spec fn line_hash(line: Seq<char>) -> Seq<char> {
    hex_prefix(fnv1a(encode_utf8(line)))
}

fn hex_digit_char(v: u64) -> (c: char)
    requires
        v < 16,
    ensures
        c == hex_digit(v),
{
    let b: u8 = if v < 10 {
        (48 + v) as u8
    } else {
        (87 + v) as u8
    };
    let c = b as char;
    c
}

/// The four hex characters that stand for a line's content.
pub fn line_hash_prefix(line: &str) -> (out: String)
    ensures
        out@ == line_hash(line@),
        out@.len() == HASH_PREFIX_LEN,
{
    let bytes = line.as_bytes();
    let mut hash: u64 = 0xcbf29ce484222325;
    for i in 0..bytes.len()
        invariant
            hash == fnv1a(bytes@.take(i as int)),
    {
        assert(bytes@.take(i + 1).drop_last() == bytes@.take(i as int));
        hash = (hash ^ (bytes[i] as u64)).wrapping_mul(0x100000001b3);
    }
    assert(bytes@.take(bytes@.len() as int) == bytes@);
    let a = hash >> 60u64;
    let b = (hash >> 56u64) & 15u64;
    let c = (hash >> 52u64) & 15u64;
    let d = (hash >> 48u64) & 15u64;
    assert(hash >> 60u64 < 16) by (bit_vector);
    assert((hash >> 56u64) & 15u64 < 16) by (bit_vector);
    assert((hash >> 52u64) & 15u64 < 16) by (bit_vector);
    assert((hash >> 48u64) & 15u64 < 16) by (bit_vector);
    let mut out = String::new();
    push_char(&mut out, hex_digit_char(a));
    push_char(&mut out, hex_digit_char(b));
    push_char(&mut out, hex_digit_char(c));
    push_char(&mut out, hex_digit_char(d));
    out
}

/// `{line_no}:{hash}|{line}`.
pub open spec fn hashline_text(line_no: nat, line: Seq<char>) -> Seq<char> {
    decimal(line_no) + seq![':'] + line_hash(line) + seq!['|'] + line
}

/// Formats one line as `line:hash|content`.
pub fn hashline(line_no: usize, line: &str) -> (out: String)
    ensures
        out@ == hashline_text(line_no as nat, line@),
{
    let mut out = String::new();
    push_usize(&mut out, line_no);
    push_char(&mut out, ':');
    let h = line_hash_prefix(line);
    push_str(&mut out, h.as_str());
    push_char(&mut out, '|');
    push_str(&mut out, line);
    out
}

/// Formats the line at 0-based index `idx` as `line:hash|content`.
pub fn hashline_at(idx: usize, line: &str) -> (out: String)
    ensures
        out@ == hashline_text(idx as nat + 1, line@),
{
    let mut out = String::new();
    push_successor(&mut out, idx);
    push_char(&mut out, ':');
    let h = line_hash_prefix(line);
    push_str(&mut out, h.as_str());
    push_char(&mut out, '|');
    push_str(&mut out, line);
    out
}

// ---------------------------------------------------------------------------
// Splitting and joining lines
// ---------------------------------------------------------------------------

/// The text with every `\r\n` replaced by `\n`.
pub open spec fn normalize_newlines(s: Seq<char>) -> Seq<char>
    decreases s.len(),
{
    if s.len() == 0 {
        s
    } else if s.len() >= 2 && s[s.len() - 2] == '\r' && s[s.len() - 1] == '\n' {
        normalize_newlines(s.take(s.len() - 2)).push('\n')
    } else {
        normalize_newlines(s.drop_last()).push(s.last())
    }
}

/// Whether the text holds a `\r\n` pair.
pub open spec fn has_crlf(s: Seq<char>) -> bool {
    exists|i: int| #[trigger] crlf_at(s, i)
}

/// A `\r\n` pair starts at `i`.
pub open spec fn crlf_at(s: Seq<char>, i: int) -> bool {
    0 <= i && i + 1 < s.len() && s[i] == '\r' && s[i + 1] == '\n'
}

/// `s.split('\n')`: the pieces between newlines (at least one).
pub open spec fn split_lines(s: Seq<char>) -> Seq<Seq<char>>
    decreases s.len(),
{
    if s.len() == 0 {
        seq![Seq::<char>::empty()]
    } else {
        let r = split_lines(s.drop_last());
        if s.last() == '\n' {
            r.push(Seq::<char>::empty())
        } else {
            r.update(r.len() - 1, r.last().push(s.last()))
        }
    }
}

/// `lines.join(sep)`.
pub open spec fn join(ls: Seq<Seq<char>>, sep: Seq<char>) -> Seq<char>
    decreases ls.len(),
{
    if ls.len() == 0 {
        Seq::<char>::empty()
    } else if ls.len() == 1 {
        ls[0]
    } else {
        join(ls.drop_last(), sep) + sep + ls.last()
    }
}

/// The character views of a list of strings.
pub open spec fn views(v: Seq<String>) -> Seq<Seq<char>> {
    v.map_values(|l: String| l@)
}

pub proof fn lemma_views_push(v: Seq<String>, x: String)
    ensures
        views(v.push(x)) == views(v).push(x@),
{
    assert(views(v.push(x)) =~= views(v).push(x@));
}

pub proof fn lemma_split_lines_nonempty(s: Seq<char>)
    ensures
        split_lines(s).len() >= 1,
    decreases s.len(),
{
    if s.len() > 0 {
        lemma_split_lines_nonempty(s.drop_last());
    }
}

/// Splits `chars` on `\n` into strings.
pub(crate) fn split_on_newlines(chars: &Vec<char>) -> (out: Vec<String>)
    ensures
        views(out@) == split_lines(chars@),
{
    let mut lines: Vec<String> = Vec::new();
    let mut cur = String::new();
    for j in 0..chars.len()
        invariant
            views(lines@).push(cur@) == split_lines(chars@.take(j as int)),
    {
        let c = chars[j];
        let ghost before = chars@.take(j as int);
        assert(chars@.take(j + 1).drop_last() == before);
        assert(chars@.take(j + 1).last() == c);
        proof {
            lemma_split_lines_nonempty(before);
        }
        if c == '\n' {
            let done = cur;
            proof {
                lemma_views_push(lines@, done);
            }
            lines.push(done);
            cur = String::new();
        } else {
            push_char(&mut cur, c);
            assert(views(lines@).push(cur@) =~= split_lines(before).update(
                split_lines(before).len() - 1,
                split_lines(before).last().push(c),
            ));
        }
    }
    assert(chars@.take(chars@.len() as int) == chars@);
    proof {
        lemma_views_push(lines@, cur);
    }
    lines.push(cur);
    lines
}

/// The text with `\r\n` pairs replaced, and whether any pair was found.
fn normalize_chars(cs: &Vec<char>) -> (out: (Vec<char>, bool))
    ensures
        out.0@ == normalize_newlines(cs@),
        out.1 == has_crlf(cs@),
{
    let mut norm: Vec<char> = Vec::new();
    let mut crlf = false;
    let mut i: usize = 0;
    while i < cs.len()
        invariant
            0 <= i <= cs.len(),
            norm@ == normalize_newlines(cs@.take(i as int)),
            crlf == has_crlf(cs@.take(i as int)),
            i > 0 && cs@[i - 1] == '\r' ==> i == cs.len() || cs@[i as int] != '\n',
        decreases cs.len() - i,
    {
        let ghost pre = cs@.take(i as int);
        if cs[i] == '\r' && i + 1 < cs.len() && cs[i + 1] == '\n' {
            norm.push('\n');
            let ghost next = cs@.take(i + 2);
            assert(next.take(next.len() - 2) == pre);
            assert(has_crlf(next)) by {
                assert(crlf_at(next, i as int));
            }
            assert(crlf ==> has_crlf(next)) by {
                if crlf {
                    let k = choose|k: int| crlf_at(pre, k);
                    assert(crlf_at(next, k));
                }
            }
            crlf = true;
            i = i + 2;
        } else {
            let c = cs[i];
            norm.push(c);
            let ghost next = cs@.take(i + 1);
            assert(next.drop_last() == pre);
            assert(has_crlf(next) == has_crlf(pre)) by {
                if has_crlf(next) {
                    let k = choose|k: int| crlf_at(next, k);
                    assert(k + 1 < pre.len());
                    assert(crlf_at(pre, k));
                }
                if has_crlf(pre) {
                    let k = choose|k: int| crlf_at(pre, k);
                    assert(crlf_at(next, k));
                }
            }
            i = i + 1;
        }
    }
    assert(cs@.take(cs@.len() as int) == cs@);
    (norm, crlf)
}

// ---------------------------------------------------------------------------
// FileLines
// ---------------------------------------------------------------------------

/// A text file as lines plus the line ending it uses and whether it ends
/// with one.
pub struct FileLines {
    pub lines: Vec<String>,
    pub line_ending: String,
    pub trailing_newline: bool,
}

pub open spec fn crlf() -> Seq<char> {
    seq!['\r', '\n']
}

pub open spec fn lf() -> Seq<char> {
    seq!['\n']
}

/// The lines that `FileLines::parse` finds in a text.
pub open spec fn parsed_lines(content: Seq<char>) -> Seq<Seq<char>> {
    let norm = normalize_newlines(content);
    let trailing = norm.len() > 0 && norm.last() == '\n';
    let lines0 = if norm.len() == 0 {
        Seq::<Seq<char>>::empty()
    } else {
        split_lines(norm)
    };
    if trailing && lines0.len() > 0 {
        lines0.drop_last()
    } else {
        lines0
    }
}

/// The line ending that `FileLines::parse` detects.
pub open spec fn parsed_ending(content: Seq<char>) -> Seq<char> {
    if has_crlf(content) {
        crlf()
    } else {
        lf()
    }
}

/// Whether `FileLines::parse` finds a final line ending.
pub open spec fn parsed_trailing(content: Seq<char>) -> bool {
    let norm = normalize_newlines(content);
    norm.len() > 0 && norm.last() == '\n'
}

/// The text `FileLines::render` produces.
pub open spec fn rendered(lines: Seq<Seq<char>>, ending: Seq<char>, trailing: bool) -> Seq<char> {
    if lines.len() == 0 {
        Seq::<char>::empty()
    } else if trailing {
        join(lines, ending) + ending
    } else {
        join(lines, ending)
    }
}

impl FileLines {
    pub open spec fn line_views(&self) -> Seq<Seq<char>> {
        views(self.lines@)
    }

    /// Splits a text into lines, noting its line ending (`\r\n` when any
    /// occurs, else `\n`) and whether it ends with one.
    pub fn parse(content: &str) -> (f: FileLines)
        ensures
            f.line_views() == parsed_lines(content@),
            f.line_ending@ == parsed_ending(content@),
            f.trailing_newline == parsed_trailing(content@),
    {
        let cs = to_chars(content);
        let (norm, has_pair) = normalize_chars(&cs);
        let mut ending = String::new();
        if has_pair {
            push_char(&mut ending, '\r');
        }
        push_char(&mut ending, '\n');
        assert(ending@ == parsed_ending(content@));
        let trailing = norm.len() > 0 && norm[norm.len() - 1] == '\n';
        let mut lines: Vec<String> = if norm.len() == 0 {
            Vec::new()
        } else {
            split_on_newlines(&norm)
        };
        proof {
            lemma_split_lines_nonempty(norm@);
        }
        if trailing && lines.len() > 0 {
            let _ = lines.pop();
            assert(views(lines@) =~= split_lines(norm@).drop_last());
        }
        FileLines { lines, line_ending: ending, trailing_newline: trailing }
    }

    /// Joins the lines with the line ending, adding a final one when the
    /// file had it; an empty list renders as the empty text.
    pub fn render(&self) -> (out: String)
        ensures
            out@ == rendered(self.line_views(), self.line_ending@, self.trailing_newline),
    {
        if self.lines.len() == 0 {
            return String::new();
        }
        let out = join_strings(&self.lines, self.line_ending.as_str());
        let mut out = out;
        if self.trailing_newline {
            push_str(&mut out, self.line_ending.as_str());
        }
        out
    }
}

/// `lines.join(sep)`.
pub fn join_strings(lines: &Vec<String>, sep: &str) -> (out: String)
    ensures
        out@ == join(views(lines@), sep@),
{
    let mut out = String::new();
    for i in 0..lines.len()
        invariant
            out@ == join(views(lines@.take(i as int)), sep@),
    {
        let ghost prev = views(lines@.take(i as int));
        assert(views(lines@.take(i + 1)) == prev.push(lines@[i as int]@)) by {
            assert(lines@.take(i + 1) == lines@.take(i as int).push(lines@[i as int]));
            lemma_views_push(lines@.take(i as int), lines@[i as int]);
        }
        if i > 0 {
            push_str(&mut out, sep);
        }
        push_str(&mut out, lines[i].as_str());
        assert(prev.push(lines@[i as int]@).drop_last() == prev);
    }
    assert(lines@.take(lines@.len() as int) == lines@);
    out
}

/// The lines that an edit's content stands for: `\r\n` becomes `\n`, the
/// text is split on newlines, and one final line ending is dropped; empty
/// content is one empty line.
pub open spec fn replacement_lines_of(content: Seq<char>) -> Seq<Seq<char>> {
    let norm = normalize_newlines(content);
    let ls = if norm.len() == 0 {
        seq![Seq::<char>::empty()]
    } else {
        split_lines(norm)
    };
    if norm.len() > 0 && norm.last() == '\n' && ls.len() > 1 {
        ls.drop_last()
    } else {
        ls
    }
}

/// The lines that an edit's content stands for.
pub fn replacement_lines(content: &str) -> (out: Vec<String>)
    ensures
        views(out@) == replacement_lines_of(content@),
        out@.len() >= 1,
{
    let cs = to_chars(content);
    let (norm, _) = normalize_chars(&cs);
    let mut lines: Vec<String> = if norm.len() == 0 {
        let mut v = Vec::new();
        let e = String::new();
        proof {
            lemma_views_push(v@, e);
        }
        v.push(e);
        assert(views(v@) =~= seq![Seq::<char>::empty()]);
        v
    } else {
        split_on_newlines(&norm)
    };
    if norm.len() > 0 && norm[norm.len() - 1] == '\n' && lines.len() > 1 {
        let _ = lines.pop();
        assert(views(lines@) =~= split_lines(norm@).drop_last());
    }
    proof {
        lemma_split_lines_nonempty(norm@);
    }
    lines
}


// ---------------------------------------------------------------------------
// Anchors
// ---------------------------------------------------------------------------

/// Why an anchor names no line.
#[derive(Debug)]
pub enum AnchorError {
    /// The file has no lines.
    EmptyFile,
    /// No `:` between line number and hash.
    MissingColon,
    /// The line number is not a positive integer.
    InvalidLineNumber,
    /// The hash has fewer than two characters.
    HashTooShort,
    /// The hash has more than `HASH_PREFIX_LEN` characters.
    HashTooLong,
    /// The hash holds a character that is not a hex digit.
    HashNotHex,
    /// No line has the hash.
    NotFound,
    /// Several lines with the hash are equally close to the line number;
    /// holds up to four of their (1-based) line numbers, closest first.
    Ambiguous(Vec<usize>),
}

/// What `str::to_lowercase` returns for a text.
pub uninterp spec fn unicode_lowercase(s: Seq<char>) -> Seq<char>;

/// Calls `str::to_lowercase`; the contract names its result and says
/// nothing more of it.
#[verifier::external_body]
pub(crate) fn lowercase(s: &str) -> (out: String)
    ensures
        out@ == unicode_lowercase(s@),
{
    s.to_lowercase()
}

pub open spec fn all_hex(s: Seq<char>) -> bool {
    forall|i: int| 0 <= i < s.len() ==> is_ascii_hex(#[trigger] s[i])
}

/// The checks a lower-cased hash prefix must pass: two to four bytes, all
/// hex digits.
pub open spec fn hash_check(h: Seq<char>) -> Result<Seq<char>, AnchorError> {
    if utf8_len(h) < 2 {
        Err(AnchorError::HashTooShort)
    } else if utf8_len(h) > HASH_PREFIX_LEN {
        Err(AnchorError::HashTooLong)
    } else if !all_hex(h) {
        Err(AnchorError::HashNotHex)
    } else {
        Ok(h)
    }
}

/// Checks a lower-cased hash prefix.
pub fn check_hash_prefix(h: String) -> (r: Result<String, AnchorError>)
    ensures
        match hash_check(h@) {
            Ok(v) => r matches Ok(x) && x@ == v,
            Err(e) => r matches Err(x) && x == e,
        },
{
    let hs = h.as_str();
    let n = hs.as_bytes().len();
    assert(n as nat == utf8_len(h@)) by {
        assert(hs@ == h@);
        assert(hs.spec_bytes() == encode_utf8(h@));
    }
    if n < 2 {
        return Err(AnchorError::HashTooShort);
    }
    if n > HASH_PREFIX_LEN {
        return Err(AnchorError::HashTooLong);
    }
    let cs = to_chars(h.as_str());
    let mut i: usize = 0;
    while i < cs.len()
        invariant
            i <= cs.len(),
            cs@ == h@,
            2 <= utf8_len(h@) <= HASH_PREFIX_LEN,
            forall|k: int| 0 <= k < i ==> is_ascii_hex(#[trigger] cs@[k]),
        decreases cs.len() - i,
    {
        let c = cs[i];
        if !(('0' <= c && c <= '9') || ('a' <= c && c <= 'f') || ('A' <= c && c <= 'F')) {
            assert(!is_ascii_hex(h@[i as int]));
            return Err(AnchorError::HashNotHex);
        }
        i = i + 1;
    }
    Ok(h)
}

/// The line number and lower-cased hash prefix that an anchor `line:hash`
/// holds, or why it is malformed.
pub open spec fn anchor_parts(anchor: Seq<char>) -> Result<(usize, Seq<char>), AnchorError> {
    let t = trim(anchor);
    match find_char(t, ':') {
        None => Err(AnchorError::MissingColon),
        Some(k) => match parse_usize_spec(t.take(k as int)) {
            None => Err(AnchorError::InvalidLineNumber),
            Some(n) => if n == 0 {
                Err(AnchorError::InvalidLineNumber)
            } else {
                match hash_check(unicode_lowercase(trim(t.skip((k + 1) as int)))) {
                    Ok(h) => Ok((n, h)),
                    Err(e) => Err(e),
                }
            },
        },
    }
}

/// Splits an anchor into its line number and lower-cased hash prefix.
pub fn parse_anchor(anchor: &str) -> (r: Result<(usize, String), AnchorError>)
    ensures
        match anchor_parts(anchor@) {
            Ok((n, h)) => r matches Ok((m, g)) && m == n && g@ == h,
            Err(e) => r matches Err(x) && x == e,
        },
{
    let cs = to_chars(anchor);
    let (a, b) = trim_bounds(&cs);
    let mut t: Vec<char> = Vec::new();
    let mut i = a;
    while i < b
        invariant
            a <= i <= b <= cs.len(),
            t@ == cs@.subrange(a as int, i as int),
        decreases b - i,
    {
        t.push(cs[i]);
        assert(cs@.subrange(a as int, i + 1) == cs@.subrange(a as int, i as int).push(cs@[i as int]));
        i = i + 1;
    }
    assert(t@ == trim(anchor@));
    let k = match find_first(&t, ':') {
        None => {
            return Err(AnchorError::MissingColon);
        },
        Some(k) => k,
    };
    let line_no = match parse_usize(&t, 0, k) {
        None => {
            assert(t@.subrange(0, k as int) == t@.take(k as int));
            return Err(AnchorError::InvalidLineNumber);
        },
        Some(n) => n,
    };
    assert(t@.subrange(0, k as int) == t@.take(k as int));
    if line_no == 0 {
        return Err(AnchorError::InvalidLineNumber);
    }
    let mut rest: Vec<char> = Vec::new();
    let mut j = k + 1;
    while j < t.len()
        invariant
            k + 1 <= j <= t.len(),
            rest@ == t@.subrange(k + 1, j as int),
        decreases t.len() - j,
    {
        rest.push(t[j]);
        assert(t@.subrange(k + 1, j + 1) == t@.subrange(k + 1, j as int).push(t@[j as int]));
        j = j + 1;
    }
    assert(rest@ == t@.skip(k + 1));
    let raw = crate::text::string_from_chars(rest.as_slice());
    let trimmed = trim_str(raw.as_str());
    let lowered = lowercase(trimmed.as_str());
    match check_hash_prefix(lowered) {
        Ok(h) => Ok((line_no, h)),
        Err(e) => Err(e),
    }
}

/// Whether a line's hash starts with the prefix `h`.
pub open spec fn hash_matches(line: Seq<char>, h: Seq<char>) -> bool {
    starts_with(line_hash(line), h)
}

pub open spec fn is_match(lines: Seq<Seq<char>>, h: Seq<char>, i: int) -> bool {
    0 <= i < lines.len() && hash_matches(lines[i], h)
}

pub open spec fn dist(i: int, e: int) -> int {
    if i >= e {
        i - e
    } else {
        e - i
    }
}

/// `i` comes before `j` when it is closer to `e`, or as close and earlier.
pub open spec fn key_lt(i: int, j: int, e: int) -> bool {
    dist(i, e) < dist(j, e) || (dist(i, e) == dist(j, e) && i < j)
}

/// `i` is a matching line strictly closer to `e` than every other match.
pub open spec fn strictly_closest(lines: Seq<Seq<char>>, h: Seq<char>, e: int, i: int) -> bool {
    &&& is_match(lines, h, i)
    &&& forall|j: int| #[trigger] is_match(lines, h, j) && j != i ==> dist(j, e) > dist(i, e)
}

/// `s` lists exactly the matching lines, ordered by `key_lt`.
pub open spec fn ranked(lines: Seq<Seq<char>>, h: Seq<char>, e: int, s: Seq<usize>) -> bool {
    &&& forall|x: usize| s.contains(x) <==> #[trigger] is_match(lines, h, x as int)
    &&& forall|a: int, b: int| 0 <= a < b < s.len() ==> key_lt(#[trigger] s[a] as int, #[trigger] s[b] as int, e)
}

pub open spec fn min_nat(a: nat, b: nat) -> nat {
    if a < b {
        a
    } else {
        b
    }
}

/// Where the prefix `h` resolves near 0-based line `e`: line `e` itself when
/// it matches; else the one match strictly closest to `e`; `NotFound` without
/// matches; else `Ambiguous` with the first four matches ranked by distance
/// and position, as line numbers.
pub open spec fn resolves(lines: Seq<Seq<char>>, h: Seq<char>, e: int, r: Result<usize, AnchorError>) -> bool {
    if is_match(lines, h, e) {
        r == Ok::<usize, AnchorError>(e as usize)
    } else if !exists|i: int| is_match(lines, h, i) {
        r matches Err(AnchorError::NotFound)
    } else if exists|i: int| strictly_closest(lines, h, e, i) {
        r matches Ok(b) && strictly_closest(lines, h, e, b as int)
    } else {
        r matches Err(AnchorError::Ambiguous(c)) && exists|s: Seq<usize>|
            #[trigger] ranked(lines, h, e, s) && c@ == s.take(min_nat(4, s.len()) as int).map_values(
                |x: usize| (x + 1) as usize,
            )
    }
}

fn abs_diff(a: usize, b: usize) -> (d: usize)
    ensures
        d as int == dist(a as int, b as int),
{
    if a >= b {
        a - b
    } else {
        b - a
    }
}

fn key_less(i: usize, j: usize, e: usize) -> (b: bool)
    ensures
        b == key_lt(i as int, j as int, e as int),
{
    let di = abs_diff(i, e);
    let dj = abs_diff(j, e);
    di < dj || (di == dj && i < j)
}

/// Whether the hash of `line` starts with `h`.
fn line_matches(line: &String, h: &Vec<char>) -> (b: bool)
    ensures
        b == hash_matches(line@, h@),
{
    let p = line_hash_prefix(line.as_str());
    let pc = to_chars(p.as_str());
    has_prefix(pc.as_slice(), h.as_slice())
}

/// What resolving `anchor` against the lines `ls` may return: `EmptyFile`
/// for no lines, the anchor's own error when malformed, else as `resolves`
/// says.
pub open spec fn anchor_outcome(anchor: Seq<char>, ls: Seq<Seq<char>>, r: Result<usize, AnchorError>) -> bool {
    &&& (ls.len() == 0 ==> (r matches Err(AnchorError::EmptyFile)))
    &&& (ls.len() > 0 ==> match anchor_parts(anchor) {
        Err(e) => r matches Err(x) && x == e,
        Ok((n, h)) => resolves(ls, h, n - 1, r),
    })
    &&& (r matches Ok(i) ==> i < ls.len())
}

/// Resolves an anchor `line:hash` to a 0-based line index: the named line
/// when its hash matches, else the nearest line whose hash matches.
pub fn resolve_anchor(anchor: &str, lines: &[String]) -> (r: Result<usize, AnchorError>)
    ensures
        anchor_outcome(anchor@, views(lines@), r),
{
    if lines.len() == 0 {
        return Err(AnchorError::EmptyFile);
    }
    let (n, h) = match parse_anchor(anchor) {
        Ok(p) => p,
        Err(e) => {
            return Err(e);
        },
    };
    let ghost ls = views(lines@);
    let hc = to_chars(h.as_str());
    let e = n - 1;
    if e < lines.len() && line_matches(&lines[e], &hc) {
        return Ok(e);
    }
    assert(!is_match(ls, h@, e as int));
    let mut sorted: Vec<usize> = Vec::new();
    for i in 0..lines.len()
        invariant
            ls == views(lines@),
            hc@ == h@,
            forall|x: usize| #[trigger] sorted@.contains(x) <==> (x < i && is_match(ls, h@, x as int)),
            forall|a: int, b: int|
                0 <= a < b < sorted@.len() ==> key_lt(#[trigger] sorted@[a] as int, #[trigger] sorted@[b] as int, e as int),
    {
        if line_matches(&lines[i], &hc) {
            let mut p: usize = 0;
            while p < sorted.len() && key_less(sorted[p], i, e)
                invariant
                    p <= sorted.len(),
                    forall|q: int| 0 <= q < p ==> key_lt(#[trigger] sorted@[q] as int, i as int, e as int),
                decreases sorted.len() - p,
            {
                p = p + 1;
            }
            let ghost old_sorted = sorted@;
            assert forall|q: int| p <= q < old_sorted.len() implies key_lt(i as int, #[trigger] old_sorted[q] as int, e as int) by {
                assert(old_sorted.contains(old_sorted[q]));
                assert(old_sorted[q] < i);
                if q > p {
                    assert(key_lt(old_sorted[p as int] as int, old_sorted[q] as int, e as int));
                }
            }
            sorted.insert(p, i);
            assert forall|x: usize| #[trigger] sorted@.contains(x) <==> (x < i + 1 && is_match(ls, h@, x as int)) by {
                if sorted@.contains(x) {
                    let k = choose|k: int| 0 <= k < sorted@.len() && sorted@[k] == x;
                    if k < p {
                        assert(old_sorted[k] == x);
                        assert(old_sorted.contains(x));
                    } else if k > p {
                        assert(old_sorted[k - 1] == x);
                        assert(old_sorted.contains(x));
                    }
                }
                if x < i + 1 && is_match(ls, h@, x as int) {
                    if x == i {
                        assert(sorted@[p as int] == x);
                    } else {
                        assert(old_sorted.contains(x));
                        let k = choose|k: int| 0 <= k < old_sorted.len() && old_sorted[k] == x;
                        if k < p {
                            assert(sorted@[k] == x);
                        } else {
                            assert(sorted@[k + 1] == x);
                        }
                    }
                }
            }
            assert forall|a: int, b: int| 0 <= a < b < sorted@.len() implies key_lt(#[trigger] sorted@[a] as int, #[trigger] sorted@[b] as int, e as int) by {
                if a < p && b < p {
                    assert(sorted@[a] == old_sorted[a] && sorted@[b] == old_sorted[b]);
                } else if a < p && b == p {
                    assert(sorted@[a] == old_sorted[a]);
                } else if a < p && b > p {
                    assert(sorted@[a] == old_sorted[a] && sorted@[b] == old_sorted[b - 1]);
                } else if a == p {
                    assert(sorted@[b] == old_sorted[b - 1]);
                } else {
                    assert(sorted@[a] == old_sorted[a - 1] && sorted@[b] == old_sorted[b - 1]);
                }
            }
        } else {
            assert forall|x: usize| #[trigger] sorted@.contains(x) <==> (x < i + 1 && is_match(ls, h@, x as int)) by {
                if x == i {
                    assert(!is_match(ls, h@, x as int));
                }
            }
        }
    }
    let ghost s = sorted@;
    assert(ranked(ls, h@, e as int, s)) by {
        assert forall|x: usize| s.contains(x) <==> #[trigger] is_match(ls, h@, x as int) by {
            if is_match(ls, h@, x as int) {
                assert(x < lines.len());
            }
        }
    }
    if sorted.len() == 0 {
        assert forall|i: int| !is_match(ls, h@, i) by {
            if is_match(ls, h@, i) {
                assert(s.contains(i as usize));
            }
        }
        return Err(AnchorError::NotFound);
    }
    assert(s.contains(s[0]));
    assert(is_match(ls, h@, s[0] as int));
    let best = sorted[0];
    if sorted.len() == 1 || abs_diff(sorted[0], e) != abs_diff(sorted[1], e) {
        assert(strictly_closest(ls, h@, e as int, best as int)) by {
            assert forall|j: int| #[trigger] is_match(ls, h@, j) && j != best implies dist(j, e as int) > dist(best as int, e as int) by {
                assert(s.contains(j as usize));
                let k = choose|k: int| 0 <= k < s.len() && s[k] == j as usize;
                assert(k != 0);
                assert(key_lt(s[0] as int, s[k] as int, e as int));
                if k > 1 {
                    assert(key_lt(s[1] as int, s[k] as int, e as int));
                }
            }
        }
        return Ok(best);
    }
    assert(forall|i: int| !strictly_closest(ls, h@, e as int, i)) by {
        assert forall|i: int| !strictly_closest(ls, h@, e as int, i) by {
            if strictly_closest(ls, h@, e as int, i) {
                assert(s.contains(s[1]));
                assert(is_match(ls, h@, s[1] as int));
                if i == s[0] as int {
                    assert(dist(s[1] as int, e as int) > dist(i, e as int));
                } else {
                    assert(dist(s[0] as int, e as int) > dist(i, e as int));
                    assert(s.contains(i as usize));
                    let k = choose|k: int| 0 <= k < s.len() && s[k] == i as usize;
                    if k > 1 {
                        assert(key_lt(s[1] as int, s[k] as int, e as int));
                    }
                }
            }
        }
    }
    let nlines = lines.len();
    assert forall|k: int| 0 <= k < s.len() implies #[trigger] s[k] < usize::MAX by {
        assert(s.contains(s[k]));
        assert(is_match(ls, h@, s[k] as int));
        assert(s[k] < nlines);
    }
    let mut cands: Vec<usize> = Vec::new();
    let mut q: usize = 0;
    while q < 4 && q < sorted.len()
        invariant
            q <= 4,
            q <= sorted.len(),
            sorted@ == s,
            forall|k: int| 0 <= k < s.len() ==> #[trigger] s[k] < usize::MAX,
            cands@ == s.take(q as int).map_values(|x: usize| (x + 1) as usize),
        decreases 4 - q,
    {
        cands.push(sorted[q] + 1);
        assert(s.take(q + 1) == s.take(q as int).push(s[q as int]));
        assert(cands@ =~= s.take(q + 1).map_values(|x: usize| (x + 1) as usize));
        q = q + 1;
    }
    assert(q as nat == min_nat(4, s.len()));
    Err(AnchorError::Ambiguous(cands))
}

/// At most one matching line is strictly closer to `e` than every other
/// match.
pub proof fn lemma_strictly_closest_unique(lines: Seq<Seq<char>>, h: Seq<char>, e: int, i: int, j: int)
    requires
        strictly_closest(lines, h, e, i),
        strictly_closest(lines, h, e, j),
    ensures
        i == j,
{
    if i != j {
        assert(is_match(lines, h, j));
        assert(dist(j, e) > dist(i, e));
        assert(is_match(lines, h, i));
        assert(dist(i, e) > dist(j, e));
    }
}

/// A well-formed anchor `n:h` on a non-empty file resolves to line `i`
/// exactly when `i` is the one line whose hash starts with `h` and that lies
/// strictly nearer to line `n` than every other such line (line `n` itself
/// when it matches); in every other case resolving fails.
pub proof fn law_anchor_resolves_to_unique_nearest_match(
    anchor: Seq<char>,
    ls: Seq<Seq<char>>,
    r: Result<usize, AnchorError>,
)
    requires
        anchor_outcome(anchor, ls, r),
        ls.len() > 0,
        anchor_parts(anchor) is Ok,
    ensures
        ({
            let (n, h) = anchor_parts(anchor)->Ok_0;
            &&& (r matches Ok(b) ==> strictly_closest(ls, h, n - 1, b as int))
            &&& forall|i: int| #[trigger]
                strictly_closest(ls, h, n - 1, i) ==> (r matches Ok(b) && b == i)
            &&& (r is Err <==> !exists|i: int| #[trigger] strictly_closest(ls, h, n - 1, i))
        }),
{
    let (n, h) = anchor_parts(anchor)->Ok_0;
    let e = n - 1;
    assert(resolves(ls, h, e, r));
    if is_match(ls, h, e) {
        assert(strictly_closest(ls, h, e, e));
        assert forall|i: int| #[trigger] strictly_closest(ls, h, e, i) implies (r matches Ok(b) && b
            == i) by {
            lemma_strictly_closest_unique(ls, h, e, e, i);
        }
    } else if !exists|i: int| is_match(ls, h, i) {
        assert forall|i: int| !#[trigger] strictly_closest(ls, h, e, i) by {
            if strictly_closest(ls, h, e, i) {
                assert(is_match(ls, h, i));
            }
        }
    } else if exists|i: int| strictly_closest(ls, h, e, i) {
        let b = r->Ok_0;
        assert(strictly_closest(ls, h, e, b as int));
        assert forall|i: int| #[trigger] strictly_closest(ls, h, e, i) implies (r matches Ok(c) && c
            == i) by {
            lemma_strictly_closest_unique(ls, h, e, b as int, i);
        }
    }
}

// ---------------------------------------------------------------------------
// Round trips
// ---------------------------------------------------------------------------

/// No character of `s` is `c`.
pub open spec fn lacks(s: Seq<char>, c: char) -> bool {
    forall|i: int| 0 <= i < s.len() ==> s[i] != c
}

proof fn lemma_normalize_without_cr(s: Seq<char>)
    requires
        lacks(s, '\r'),
    ensures
        normalize_newlines(s) == s,
        !has_crlf(s),
    decreases s.len(),
{
    if s.len() > 0 {
        lemma_normalize_without_cr(s.drop_last());
        assert(normalize_newlines(s.drop_last()).push(s.last()) == s);
    }
    if has_crlf(s) {
        let k = choose|k: int| crlf_at(s, k);
        assert(s[k] == '\r');
    }
}

proof fn lemma_join_extend_last(ls: Seq<Seq<char>>, sep: Seq<char>, x: Seq<char>)
    requires
        ls.len() >= 1,
    ensures
        join(ls.update(ls.len() - 1, ls.last() + x), sep) == join(ls, sep) + x,
{
    let u = ls.update(ls.len() - 1, ls.last() + x);
    if ls.len() == 1 {
    } else {
        assert(u.drop_last() == ls.drop_last());
        assert(join(u, sep) == join(ls.drop_last(), sep) + sep + (ls.last() + x));
        assert(join(ls.drop_last(), sep) + sep + (ls.last() + x) == join(ls, sep) + x);
    }
}

/// Every `\n` of the text directly follows a `\r`.
pub open spec fn all_crlf(s: Seq<char>) -> bool {
    forall|i: int| 0 <= i < s.len() && #[trigger] s[i] == '\n' ==> i >= 1 && s[i - 1] == '\r'
}

/// The text with every `\n` replaced by `sep`.
pub open spec fn expand_newlines(n: Seq<char>, sep: Seq<char>) -> Seq<char>
    decreases n.len(),
{
    if n.len() == 0 {
        Seq::<char>::empty()
    } else if n.last() == '\n' {
        expand_newlines(n.drop_last(), sep) + sep
    } else {
        expand_newlines(n.drop_last(), sep).push(n.last())
    }
}

proof fn lemma_normalize_without_crlf(s: Seq<char>)
    requires
        !has_crlf(s),
    ensures
        normalize_newlines(s) == s,
    decreases s.len(),
{
    if s.len() > 0 {
        if s.len() >= 2 && s[s.len() - 2] == '\r' && s[s.len() - 1] == '\n' {
            assert(crlf_at(s, s.len() - 2));
        }
        let d = s.drop_last();
        if has_crlf(d) {
            let k = choose|k: int| crlf_at(d, k);
            assert(crlf_at(s, k));
        }
        lemma_normalize_without_crlf(d);
        assert(normalize_newlines(d).push(s.last()) == s);
    }
}

proof fn lemma_expand_lf(n: Seq<char>)
    ensures
        expand_newlines(n, lf()) == n,
    decreases n.len(),
{
    if n.len() > 0 {
        lemma_expand_lf(n.drop_last());
        if n.last() == '\n' {
            assert(n.drop_last() + lf() =~= n);
        } else {
            assert(n.drop_last().push(n.last()) =~= n);
        }
    }
}

proof fn lemma_expand_normalize_crlf(s: Seq<char>)
    requires
        all_crlf(s),
    ensures
        expand_newlines(normalize_newlines(s), crlf()) == s,
    decreases s.len(),
{
    if s.len() > 0 {
        if s.len() >= 2 && s[s.len() - 2] == '\r' && s[s.len() - 1] == '\n' {
            let t = s.take(s.len() - 2);
            assert forall|i: int| 0 <= i < t.len() && #[trigger] t[i] == '\n' implies i >= 1 && t[i - 1]
                == '\r' by {
                assert(s[i] == '\n');
            }
            lemma_expand_normalize_crlf(t);
            let nt = normalize_newlines(t);
            assert(nt.push('\n').drop_last() == nt);
            assert(t + crlf() == s);
        } else {
            let d = s.drop_last();
            if s.last() == '\n' {
                assert(s[s.len() - 1] == '\n');
            }
            assert(s.last() != '\n');
            assert forall|i: int| 0 <= i < d.len() && #[trigger] d[i] == '\n' implies i >= 1 && d[i - 1]
                == '\r' by {
                assert(s[i] == '\n');
            }
            lemma_expand_normalize_crlf(d);
            let nd = normalize_newlines(d);
            assert(nd.push(s.last()).drop_last() == nd);
            assert(d.push(s.last()) == s);
        }
    }
}

proof fn lemma_join_split_sep(n: Seq<char>, sep: Seq<char>)
    ensures
        join(split_lines(n), sep) == expand_newlines(n, sep),
    decreases n.len(),
{
    if n.len() > 0 {
        let r = split_lines(n.drop_last());
        lemma_join_split_sep(n.drop_last(), sep);
        lemma_split_lines_nonempty(n.drop_last());
        if n.last() == '\n' {
            let p = r.push(Seq::<char>::empty());
            assert(p.drop_last() == r);
            assert(join(p, sep) == join(r, sep) + sep + Seq::<char>::empty());
            assert(join(r, sep) + sep + Seq::<char>::empty() == join(r, sep) + sep);
        } else {
            lemma_join_extend_last(r, sep, seq![n.last()]);
            assert(r.last() + seq![n.last()] == r.last().push(n.last()));
            assert(join(r, sep) + seq![n.last()] == join(r, sep).push(n.last()));
        }
    }
}

/// Rendering the parse of a text gives back the text, whenever its line
/// endings are uniform: it holds no `\r\n` pair at all (lone `\r`s may
/// occur), or every `\n` in it directly follows a `\r`. Only texts that mix
/// `\r\n` with a bare `\n` come back changed.
pub proof fn law_render_after_parse(content: Seq<char>)
    requires
        !has_crlf(content) || all_crlf(content),
    ensures
        rendered(parsed_lines(content), parsed_ending(content), parsed_trailing(content))
            == content,
{
    let n = normalize_newlines(content);
    let sep = parsed_ending(content);
    if has_crlf(content) {
        lemma_expand_normalize_crlf(content);
    } else {
        lemma_normalize_without_crlf(content);
        lemma_expand_lf(content);
    }
    assert(expand_newlines(n, sep) == content);
    if n.len() > 0 {
        lemma_join_split_sep(n, sep);
        if n.last() == '\n' {
            let r = split_lines(n.drop_last());
            lemma_split_lines_nonempty(n.drop_last());
            lemma_join_split_sep(n.drop_last(), sep);
            assert(split_lines(n) == r.push(Seq::<char>::empty()));
            assert(split_lines(n).drop_last() == r);
        } else {
            lemma_split_lines_nonempty(n);
        }
    }
}

proof fn lemma_split_append(s: Seq<char>, t: Seq<char>)
    requires
        lacks(t, '\n'),
    ensures
        split_lines(s + t) == split_lines(s).update(
            split_lines(s).len() - 1,
            split_lines(s).last() + t,
        ),
    decreases t.len(),
{
    lemma_split_lines_nonempty(s);
    if t.len() == 0 {
        assert(s + t == s);
        assert(split_lines(s).last() + t == split_lines(s).last());
        assert(split_lines(s).update(split_lines(s).len() - 1, split_lines(s).last())
            =~= split_lines(s));
    } else {
        let t0 = t.drop_last();
        lemma_split_append(s, t0);
        assert((s + t).drop_last() == s + t0);
        assert((s + t).last() == t.last());
        assert(t0 + seq![t.last()] == t);
        assert((split_lines(s).last() + t0).push(t.last()) == split_lines(s).last() + t);
        assert(split_lines(s + t) =~= split_lines(s).update(
            split_lines(s).len() - 1,
            split_lines(s).last() + t,
        ));
    }
}

proof fn lemma_split_join(ls: Seq<Seq<char>>)
    requires
        ls.len() >= 1,
        forall|i: int| 0 <= i < ls.len() ==> lacks(#[trigger] ls[i], '\n'),
    ensures
        split_lines(join(ls, lf())) == ls,
    decreases ls.len(),
{
    if ls.len() == 1 {
        lemma_split_append(Seq::<char>::empty(), ls[0]);
        assert(Seq::<char>::empty() + ls[0] == ls[0]);
        assert(split_lines(Seq::<char>::empty()) == seq![Seq::<char>::empty()]);
        assert(Seq::<char>::empty() + ls[0] == ls[0]);
        assert(seq![Seq::<char>::empty()].update(0, Seq::<char>::empty() + ls[0]) =~= ls);
    } else {
        let d = ls.drop_last();
        lemma_split_join(d);
        let x = join(d, lf());
        let xs = x + lf();
        assert(xs.drop_last() == x);
        assert(split_lines(xs) == d.push(Seq::<char>::empty()));
        lemma_split_append(xs, ls.last());
        assert(join(ls, lf()) == xs + ls.last());
        assert(Seq::<char>::empty() + ls.last() == ls.last());
        assert(d.push(Seq::<char>::empty()).update(d.len() as int, Seq::<char>::empty() + ls.last())
            =~= ls);
    }
}

proof fn lemma_join_lacks(ls: Seq<Seq<char>>, c: char)
    requires
        c != '\n',
        forall|i: int| 0 <= i < ls.len() ==> lacks(#[trigger] ls[i], c),
    ensures
        lacks(join(ls, lf()), c),
    decreases ls.len(),
{
    if ls.len() > 1 {
        lemma_join_lacks(ls.drop_last(), c);
        let a = join(ls.drop_last(), lf());
        let l = ls.last();
        assert(lacks(l, c));
        assert forall|i: int| 0 <= i < (a + lf() + l).len() implies (a + lf() + l)[i] != c by {
            if i < a.len() {
            } else if i == a.len() {
            } else {
                assert((a + lf() + l)[i] == l[i - a.len() - 1]);
            }
        }
    } else if ls.len() == 1 {
        assert(lacks(ls[0], c));
    }
}

proof fn lemma_join_last(ls: Seq<Seq<char>>, sep: Seq<char>)
    requires
        ls.len() >= 1,
        ls.last().len() > 0,
    ensures
        join(ls, sep).len() > 0,
        join(ls, sep).last() == ls.last().last(),
{
}

/// Whether a file's lines and flags are what parsing its rendering finds:
/// `\n` endings, no line holds a line break, a file without lines has no
/// final newline, and without a final newline the last line is not empty.
pub open spec fn parse_stable(lines: Seq<Seq<char>>, ending: Seq<char>, trailing: bool) -> bool {
    &&& ending == lf()
    &&& forall|i: int|
        0 <= i < lines.len() ==> lacks(#[trigger] lines[i], '\n') && lacks(lines[i], '\r')
    &&& lines.len() == 0 ==> !trailing
    &&& (lines.len() > 0 && !trailing) ==> lines.last().len() > 0
}

/// Parsing the rendering of a file gives back its lines, line ending and
/// final-newline flag.
pub proof fn law_parse_after_render(lines: Seq<Seq<char>>, ending: Seq<char>, trailing: bool)
    requires
        parse_stable(lines, ending, trailing),
    ensures
        parsed_lines(rendered(lines, ending, trailing)) == lines,
        parsed_ending(rendered(lines, ending, trailing)) == ending,
        parsed_trailing(rendered(lines, ending, trailing)) == trailing,
{
    let t = rendered(lines, ending, trailing);
    if lines.len() == 0 {
        assert(t.len() == 0);
        lemma_normalize_without_cr(t);
    } else {
        lemma_join_lacks(lines, '\r');
        let j = join(lines, lf());
        lemma_split_join(lines);
        if trailing {
            assert(t == j + lf());
            assert(lacks(t, '\r')) by {
                assert forall|i: int| 0 <= i < t.len() implies t[i] != '\r' by {
                    if i < j.len() {
                        assert(t[i] == j[i]);
                    }
                }
            }
            lemma_normalize_without_cr(t);
            assert(t.drop_last() == j);
            assert(split_lines(t) == lines.push(Seq::<char>::empty()));
            assert(lines.push(Seq::<char>::empty()).drop_last() == lines);
        } else {
            lemma_normalize_without_cr(t);
            lemma_join_last(lines, lf());
            assert(lacks(lines.last(), '\n'));
            assert(lines.last().last() != '\n');
        }
    }
}

} // verus!
