//! `@` mentions of project files: scoring a file against a query, ranking the
//! index of files, and the bookkeeping of a source that asks a worker for
//! rankings and keeps the newest answer.

use vstd::prelude::*;

use crate::text::{ascii_lower_seq, ascii_lowercase, has_prefix, push_char, starts_with, to_chars};
use crate::order::{sort_by_key_stable, stable_perm};
use crate::skill::chars_le;
use crate::typeahead::{strings_view, TypeaheadItem};

verus! {

// ---------------------------------------------------------------------------
// Mentions
// ---------------------------------------------------------------------------

/// A path with every `\` turned into `/`.
pub open spec fn slashed(s: Seq<char>) -> Seq<char> {
    s.map_values(|c: char| if c == '\\' { '/' } else { c })
}

/// The text of a path, with `/` as separator.
pub fn path_text(path: &str) -> (out: String)
    ensures
        out@ == slashed(path@),
{
    let cs = to_chars(path);
    let mut out = String::new();
    for i in 0..cs.len()
        invariant
            cs@ == path@,
            out@ == slashed(path@.take(i as int)),
    {
        let c = if cs[i] == '\\' {
            '/'
        } else {
            cs[i]
        };
        push_char(&mut out, c);
        assert(slashed(path@.take(i + 1)) == slashed(path@.take(i as int)).push(c));
    }
    assert(path@.take(cs.len() as int) == path@);
    out
}

/// A file of the project, by its path relative to the project root.
#[derive(Debug, Clone, PartialEq, Eq)]
pub enum Mention {
    File(String),
}

pub open spec fn mention_path(m: Mention) -> Seq<char> {
    match m {
        Mention::File(p) => p@,
    }
}

impl TypeaheadItem for Mention {
    open spec fn token_view(&self) -> Seq<char> {
        slashed(mention_path(*self))
    }

    open spec fn terms_view(&self) -> Seq<Seq<char>> {
        seq![slashed(mention_path(*self))]
    }

    fn token_text(&self) -> (s: String) {
        match self {
            Mention::File(p) => path_text(p.as_str()),
        }
    }

    open spec fn description_view(&self) -> Option<Seq<char>> {
        Some("File"@)
    }

    fn description(&self) -> (d: Option<String>) {
        Some("File".to_owned())
    }

    fn match_terms(&self) -> (v: Vec<String>) {
        let t = self.token_text();
        let v = vec![t];
        assert(strings_view(v@) =~= seq![slashed(mention_path(*self))]);
        v
    }
}

// ---------------------------------------------------------------------------
// Index entries and scores
// ---------------------------------------------------------------------------

/// The part of `s` after its last `/`.
pub open spec fn last_segment(s: Seq<char>) -> Seq<char>
    decreases s.len(),
{
    if s.len() == 0 {
        s
    } else if s.last() == '/' {
        Seq::<char>::empty()
    } else {
        last_segment(s.drop_last()).push(s.last())
    }
}

/// One indexed file: its relative path, the path as shown, and the lower-cased
/// forms that queries are matched against.
pub struct FileEntry {
    pub relative: String,
    pub display: String,
    pub display_lower: String,
    pub file_name_lower: String,
}

impl FileEntry {
    pub open spec fn well_formed(&self) -> bool {
        &&& self.display@ == slashed(self.relative@)
        &&& self.display_lower@ == ascii_lower_seq(self.display@)
        &&& self.file_name_lower@ == ascii_lower_seq(last_segment(self.relative@))
    }

    /// The entry for a file at `relative`.
    pub fn new(relative: String) -> (e: FileEntry)
        ensures
            e.relative@ == relative@,
            e.well_formed(),
    {
        let display = path_text(relative.as_str());
        let display_lower = ascii_lowercase(display.as_str());
        let rc = to_chars(relative.as_str());
        let mut from: usize = rc.len();
        assert(rc@.take(rc.len() as int) == rc@);
        assert(rc@.subrange(rc.len() as int, rc.len() as int) == Seq::<char>::empty());
        assert(last_segment(relative@) + Seq::<char>::empty() == last_segment(relative@));
        while from > 0 && rc[from - 1] != '/'
            invariant
                from <= rc.len(),
                rc@ == relative@,
                last_segment(relative@) == last_segment(rc@.take(from as int)) + rc@.subrange(
                    from as int,
                    rc.len() as int,
                ),
            decreases from,
        {
            proof {
                let t = rc@.take(from as int);
                assert(t.drop_last() == rc@.take(from - 1));
                assert(rc@.subrange(from - 1, rc.len() as int) == seq![t.last()] + rc@.subrange(
                    from as int,
                    rc.len() as int,
                ));
                assert(last_segment(t) == last_segment(t.drop_last()).push(t.last()));
                assert(last_segment(t.drop_last()).push(t.last()) + rc@.subrange(
                    from as int,
                    rc.len() as int,
                ) == last_segment(t.drop_last()) + rc@.subrange(from - 1, rc.len() as int));
            }
            from = from - 1;
        }
        proof {
            assert(rc@.take(rc.len() as int) == rc@);
            if from > 0 {
                assert(rc@.take(from as int).last() == '/');
            } else {
                assert(rc@.take(0) == Seq::<char>::empty());
            }
            assert(last_segment(rc@.take(from as int)) == Seq::<char>::empty());
            assert(last_segment(relative@) == rc@.subrange(from as int, rc.len() as int));
        }
        let mut name = String::new();
        let mut i = from;
        while i < rc.len()
            invariant
                from <= i <= rc.len(),
                name@ == ascii_lower_seq(rc@.subrange(from as int, i as int)),
            decreases rc.len() - i,
        {
            let c = crate::text::to_ascii_lower_char(rc[i]);
            push_char(&mut name, c);
            assert(rc@.subrange(from as int, i + 1) == rc@.subrange(from as int, i as int).push(
                rc@[i as int],
            ));
            assert(ascii_lower_seq(rc@.subrange(from as int, i + 1)) == ascii_lower_seq(
                rc@.subrange(from as int, i as int),
            ).push(c));
            i = i + 1;
        }
        FileEntry { relative, display, display_lower, file_name_lower: name }
    }
}

/// Whether `p` starts a `/`-separated segment of `s`.
pub open spec fn seg_start(s: Seq<char>, p: int) -> bool {
    p == 0 || (0 < p <= s.len() && s[p - 1] == '/')
}

/// Where the segment starting at `p` ends: the next `/`, or the end of `s`.
pub open spec fn seg_end(s: Seq<char>, p: int) -> int
    decreases s.len() - p,
{
    if p < 0 || p >= s.len() {
        s.len() as int
    } else if s[p] == '/' {
        p
    } else {
        seg_end(s, p + 1)
    }
}

pub proof fn lemma_seg_end(s: Seq<char>, p: int)
    requires
        0 <= p <= s.len(),
    ensures
        p <= seg_end(s, p) <= s.len(),
    decreases s.len() - p,
{
    if p < s.len() && s[p] != '/' {
        lemma_seg_end(s, p + 1);
    }
}

/// Whether some `/`-separated segment of `s` starts with `q`.
pub open spec fn segment_starts_with(s: Seq<char>, q: Seq<char>) -> bool {
    exists|p: int|
        0 <= p <= s.len() && seg_start(s, p) && #[trigger] starts_with(
            s.subrange(p, seg_end(s, p)),
            q,
        )
}

/// Whether `q` occurs in `s` at `p`.
pub open spec fn occurs_at(s: Seq<char>, q: Seq<char>, p: int) -> bool {
    0 <= p && p + q.len() <= s.len() && s.subrange(p, p + q.len()) == q
}

/// Whether `q` occurs in `s`.
pub open spec fn occurs(s: Seq<char>, q: Seq<char>) -> bool {
    exists|p: int| #[trigger] occurs_at(s, q, p)
}

/// How well a file matches a query: a file name starting with it ranks first,
/// then a path segment starting with it, then the path containing it; the
/// empty query matches every file, last. `None` when it does not match.
pub open spec fn match_score(display_lower: Seq<char>, file_name_lower: Seq<char>, q: Seq<char>) -> Option<u8> {
    if q.len() == 0 {
        Some(3)
    } else if starts_with(file_name_lower, q) {
        Some(0)
    } else if segment_starts_with(display_lower, q) {
        Some(1)
    } else if occurs(display_lower, q) {
        Some(2)
    } else {
        None
    }
}

pub open spec fn entry_score(e: FileEntry, q: Seq<char>) -> Option<u8> {
    match_score(e.display_lower@, e.file_name_lower@, q)
}

proof fn lemma_starts_with_prefix(s: Seq<char>, q1: Seq<char>, q2: Seq<char>)
    requires
        starts_with(q2, q1),
        starts_with(s, q2),
    ensures
        starts_with(s, q1),
{
    assert(s.take(q1.len() as int) == s.take(q2.len() as int).take(q1.len() as int));
}

/// A file that matches a query matches every prefix of it.
pub proof fn lemma_score_prefix(e: FileEntry, q1: Seq<char>, q2: Seq<char>)
    requires
        starts_with(q2, q1),
        entry_score(e, q2) is Some,
    ensures
        entry_score(e, q1) is Some,
{
    let d = e.display_lower@;
    if q1.len() > 0 {
        if starts_with(e.file_name_lower@, q2) {
            lemma_starts_with_prefix(e.file_name_lower@, q1, q2);
        } else if segment_starts_with(d, q2) {
            let p = choose|p: int|
                0 <= p <= d.len() && seg_start(d, p) && #[trigger] starts_with(
                    d.subrange(p, seg_end(d, p)),
                    q2,
                );
            lemma_starts_with_prefix(d.subrange(p, seg_end(d, p)), q1, q2);
        } else {
            let p = choose|p: int| #[trigger] occurs_at(d, q2, p);
            assert(d.subrange(p, p + q1.len()) == d.subrange(p, p + q2.len()).take(q1.len() as int));
            assert(q2.take(q1.len() as int) == q1);
            assert(occurs_at(d, q1, p));
        }
    }
}

/// Whether `q` is a prefix of `s[from..to]`.
fn prefix_at(s: &Vec<char>, from: usize, to: usize, q: &Vec<char>) -> (b: bool)
    requires
        from <= to <= s.len(),
    ensures
        b == starts_with(s@.subrange(from as int, to as int), q@),
{
    if q.len() > to - from {
        return false;
    }
    let mut i: usize = 0;
    while i < q.len()
        invariant
            from <= to <= s.len(),
            q.len() <= to - from,
            i <= q.len(),
            s@.subrange(from as int, from + i) == q@.take(i as int),
        decreases q.len() - i,
    {
        if s[from + i] != q[i] {
            assert(s@.subrange(from as int, to as int).take(q.len() as int)[i as int] != q@[i as int]);
            return false;
        }
        assert(s@.subrange(from as int, from + i + 1) == s@.subrange(from as int, from + i).push(
            s@[from + i],
        ));
        assert(q@.take(i + 1) == q@.take(i as int).push(q@[i as int]));
        i = i + 1;
    }
    assert(s@.subrange(from as int, to as int).take(q.len() as int) == s@.subrange(
        from as int,
        from + q.len(),
    ));
    assert(q@.take(q.len() as int) == q@);
    true
}

/// `seg_end`, computed.
fn segment_end(s: &Vec<char>, p: usize) -> (e: usize)
    requires
        p <= s.len(),
    ensures
        e == seg_end(s@, p as int),
        p <= e <= s.len(),
{
    let mut e = p;
    proof {
        lemma_seg_end(s@, p as int);
    }
    while e < s.len() && s[e] != '/'
        invariant
            p <= e <= s.len(),
            seg_end(s@, p as int) == seg_end(s@, e as int),
        decreases s.len() - e,
    {
        e = e + 1;
    }
    e
}

/// Whether some `/`-separated segment of `s` starts with `q`.
fn any_segment_starts_with(s: &Vec<char>, q: &Vec<char>) -> (b: bool)
    ensures
        b == segment_starts_with(s@, q@),
{
    let mut p: usize = 0;
    loop
        invariant
            p <= s.len(),
            forall|k: int|
                0 <= k < p && seg_start(s@, k) ==> !#[trigger] starts_with(
                    s@.subrange(k, seg_end(s@, k)),
                    q@,
                ),
        decreases s.len() - p,
    {
        if p == 0 || s[p - 1] == '/' {
            let e = segment_end(s, p);
            if prefix_at(s, p, e, q) {
                assert(seg_start(s@, p as int));
                return true;
            }
        }
        if p == s.len() {
            return false;
        }
        p = p + 1;
    }
}

/// Whether `q` occurs in `s`.
pub fn contains_chars(s: &Vec<char>, q: &Vec<char>) -> (b: bool)
    ensures
        b == occurs(s@, q@),
{
    if q.len() > s.len() {
        assert forall|p: int| !occurs_at(s@, q@, p) by {}
        return false;
    }
    let last = s.len() - q.len();
    let mut p: usize = 0;
    loop
        invariant
            q.len() <= s.len(),
            last == s.len() - q.len(),
            p <= last,
            forall|k: int| 0 <= k < p ==> !#[trigger] occurs_at(s@, q@, k),
        decreases last - p,
    {
        proof {
            assert(s@.subrange(p as int, p + q.len()).take(q.len() as int) == s@.subrange(
                p as int,
                p + q.len(),
            ));
        }
        if prefix_at(s, p, p + q.len(), q) {
            assert(occurs_at(s@, q@, p as int));
            return true;
        }
        if p == last {
            assert forall|k: int| !occurs_at(s@, q@, k) by {
                if k > p {
                    assert(k + q.len() > s.len());
                }
            }
            return false;
        }
        p = p + 1;
    }
}

/// The score of a file against a (lower-cased) query.
fn file_match_score(entry: &FileEntry, query: &Vec<char>) -> (r: Option<u8>)
    ensures
        r == entry_score(*entry, query@),
{
    if query.len() == 0 {
        return Some(3);
    }
    let name = to_chars(entry.file_name_lower.as_str());
    if has_prefix(name.as_slice(), query.as_slice()) {
        return Some(0);
    }
    let d = to_chars(entry.display_lower.as_str());
    if any_segment_starts_with(&d, query) {
        return Some(1);
    }
    if contains_chars(&d, query) {
        return Some(2);
    }
    None
}

// ---------------------------------------------------------------------------
// Ranking the index
// ---------------------------------------------------------------------------

/// Indices below `n` of the files whose score is `s`, in index order.
pub open spec fn bucket_upto(entries: Seq<FileEntry>, q: Seq<char>, s: u8, n: nat) -> Seq<usize>
    decreases n,
{
    if n == 0 {
        Seq::<usize>::empty()
    } else {
        let prev = bucket_upto(entries, q, s, (n - 1) as nat);
        if entry_score(entries[n - 1], q) == Some(s) {
            prev.push((n - 1) as usize)
        } else {
            prev
        }
    }
}

/// The buckets of the scores below `s`, best first.
pub open spec fn ranked_upto(entries: Seq<FileEntry>, q: Seq<char>, s: nat) -> Seq<usize>
    decreases s,
{
    if s == 0 {
        Seq::<usize>::empty()
    } else {
        ranked_upto(entries, q, (s - 1) as nat) + bucket_upto(
            entries,
            q,
            (s - 1) as u8,
            entries.len(),
        )
    }
}

/// The files that match `q`, best score first and in index order within a
/// score. The index is kept sorted by path, so this is the order by score and
/// then by path.
pub open spec fn ranked(entries: Seq<FileEntry>, q: Seq<char>) -> Seq<usize> {
    ranked_upto(entries, q, 4)
}

pub open spec fn score_code(o: Option<u8>) -> u8 {
    match o {
        Some(x) => x,
        None => 4,
    }
}

proof fn lemma_bucket(entries: Seq<FileEntry>, q: Seq<char>, s: u8, n: nat)
    requires
        n <= entries.len() <= usize::MAX,
    ensures
        forall|i: int|
            0 <= i < bucket_upto(entries, q, s, n).len() ==> #[trigger] bucket_upto(entries, q, s, n)[i]
                < n && entry_score(entries[bucket_upto(entries, q, s, n)[i] as int], q) == Some(s),
        forall|j: int|
            0 <= j < n && entry_score(entries[j], q) == Some(s) ==> bucket_upto(
                entries,
                q,
                s,
                n,
            ).contains(j as usize),
    decreases n,
{
    if n > 0 {
        lemma_bucket(entries, q, s, (n - 1) as nat);
        let prev = bucket_upto(entries, q, s, (n - 1) as nat);
        let cur = bucket_upto(entries, q, s, n);
        assert forall|j: int|
            0 <= j < n && entry_score(entries[j], q) == Some(s) implies cur.contains(j as usize) by {
            if j < n - 1 {
                let k = choose|k: int| 0 <= k < prev.len() && #[trigger] prev[k] == j as usize;
                assert(cur[k] == prev[k]);
            } else {
                assert(cur[cur.len() - 1] == j as usize);
            }
        }
    }
}

proof fn lemma_ranked_upto(entries: Seq<FileEntry>, q: Seq<char>, s: nat)
    requires
        s <= 4,
        entries.len() <= usize::MAX,
    ensures
        forall|i: int|
            0 <= i < ranked_upto(entries, q, s).len() ==> #[trigger] ranked_upto(entries, q, s)[i]
                < entries.len() && entry_score(entries[ranked_upto(entries, q, s)[i] as int], q) is Some,
        forall|j: int|
            0 <= j < entries.len() && entry_score(entries[j], q) is Some && score_code(
                entry_score(entries[j], q),
            ) < s ==> ranked_upto(entries, q, s).contains(j as usize),
    decreases s,
{
    if s > 0 {
        lemma_ranked_upto(entries, q, (s - 1) as nat);
        lemma_bucket(entries, q, (s - 1) as u8, entries.len());
        let prev = ranked_upto(entries, q, (s - 1) as nat);
        let b = bucket_upto(entries, q, (s - 1) as u8, entries.len());
        let cur = ranked_upto(entries, q, s);
        assert forall|i: int| 0 <= i < cur.len() implies #[trigger] cur[i] < entries.len()
            && entry_score(entries[cur[i] as int], q) is Some by {
            if i >= prev.len() {
                assert(cur[i] == b[i - prev.len()]);
            }
        }
        assert forall|j: int|
            0 <= j < entries.len() && entry_score(entries[j], q) is Some && score_code(
                entry_score(entries[j], q),
            ) < s implies cur.contains(j as usize) by {
            if score_code(entry_score(entries[j], q)) < s - 1 {
                let k = choose|k: int| 0 <= k < prev.len() && #[trigger] prev[k] == j as usize;
                assert(cur[k] == prev[k]);
            } else {
                let k = choose|k: int| 0 <= k < b.len() && #[trigger] b[k] == j as usize;
                assert(cur[prev.len() + k] == b[k]);
            }
        }
    }
}

/// Facts about `ranked`: its members are exactly the matching files.
pub proof fn lemma_ranked(entries: Seq<FileEntry>, q: Seq<char>)
    requires
        entries.len() <= usize::MAX,
    ensures
        forall|i: int|
            0 <= i < ranked(entries, q).len() ==> #[trigger] ranked(entries, q)[i] < entries.len()
                && entry_score(entries[ranked(entries, q)[i] as int], q) is Some,
        forall|j: int|
            0 <= j < entries.len() && entry_score(entries[j], q) is Some ==> ranked(
                entries,
                q,
            ).contains(j as usize),
{
    lemma_ranked_upto(entries, q, 4);
}

proof fn lemma_bucket_empty_query(entries: Seq<FileEntry>, s: u8, n: nat)
    requires
        n <= entries.len() <= usize::MAX,
    ensures
        bucket_upto(entries, Seq::<char>::empty(), s, n) == (if s == 3 {
            Seq::new(n, |i: int| i as usize)
        } else {
            Seq::<usize>::empty()
        }),
    decreases n,
{
    if n > 0 {
        lemma_bucket_empty_query(entries, s, (n - 1) as nat);
    }
}

/// The empty query ranks every file, in index order.
pub proof fn lemma_ranked_empty_query(entries: Seq<FileEntry>)
    requires
        entries.len() <= usize::MAX,
    ensures
        ranked(entries, Seq::<char>::empty()) == Seq::new(entries.len(), |i: int| i as usize),
{
    let e = Seq::<char>::empty();
    let n = entries.len();
    lemma_bucket_empty_query(entries, 0, n);
    lemma_bucket_empty_query(entries, 1, n);
    lemma_bucket_empty_query(entries, 2, n);
    lemma_bucket_empty_query(entries, 3, n);
    assert(ranked_upto(entries, e, 0) == Seq::<usize>::empty());
    assert(ranked_upto(entries, e, 1) =~= Seq::<usize>::empty());
    assert(ranked_upto(entries, e, 2) =~= Seq::<usize>::empty());
    assert(ranked_upto(entries, e, 3) =~= Seq::<usize>::empty());
    assert(ranked(entries, e) =~= Seq::new(n, |i: int| i as usize));
}

/// `a` comes before `b` in a ranking: a better score, or the same score and
/// an earlier file.
pub open spec fn rank_before(entries: Seq<FileEntry>, q: Seq<char>, a: usize, b: usize) -> bool {
    let sa = score_code(entry_score(entries[a as int], q));
    let sb = score_code(entry_score(entries[b as int], q));
    sa < sb || (sa == sb && a < b)
}

proof fn lemma_bucket_sorted(entries: Seq<FileEntry>, q: Seq<char>, s: u8, n: nat)
    requires
        n <= entries.len() <= usize::MAX,
    ensures
        forall|a: int, b: int|
            0 <= a < b < bucket_upto(entries, q, s, n).len() ==> #[trigger] bucket_upto(entries, q, s, n)[a]
                < #[trigger] bucket_upto(entries, q, s, n)[b],
    decreases n,
{
    if n > 0 {
        lemma_bucket_sorted(entries, q, s, (n - 1) as nat);
        lemma_bucket(entries, q, s, (n - 1) as nat);
        let prev = bucket_upto(entries, q, s, (n - 1) as nat);
        let cur = bucket_upto(entries, q, s, n);
        assert forall|a: int, b: int| 0 <= a < b < cur.len() implies #[trigger] cur[a] < #[trigger] cur[b] by {
            if b < prev.len() {
                assert(cur[a] == prev[a] && cur[b] == prev[b]);
            } else {
                assert(cur[a] == prev[a]);
                assert(prev[a] < n - 1);
            }
        }
    }
}

proof fn lemma_ranked_upto_sorted(entries: Seq<FileEntry>, q: Seq<char>, s: nat)
    requires
        s <= 4,
        entries.len() <= usize::MAX,
    ensures
        forall|i: int|
            0 <= i < ranked_upto(entries, q, s).len() ==> score_code(
                entry_score(entries[#[trigger] ranked_upto(entries, q, s)[i] as int], q),
            ) < s,
        forall|a: int, b: int|
            0 <= a < b < ranked_upto(entries, q, s).len() ==> rank_before(
                entries,
                q,
                #[trigger] ranked_upto(entries, q, s)[a],
                #[trigger] ranked_upto(entries, q, s)[b],
            ),
    decreases s,
{
    if s > 0 {
        lemma_ranked_upto_sorted(entries, q, (s - 1) as nat);
        lemma_ranked_upto(entries, q, (s - 1) as nat);
        let prev = ranked_upto(entries, q, (s - 1) as nat);
        let b = bucket_upto(entries, q, (s - 1) as u8, entries.len());
        lemma_bucket(entries, q, (s - 1) as u8, entries.len());
        lemma_bucket_sorted(entries, q, (s - 1) as u8, entries.len());
        let cur = ranked_upto(entries, q, s);
        assert(cur == prev + b);
        assert forall|i: int| 0 <= i < cur.len() implies score_code(
            entry_score(entries[#[trigger] cur[i] as int], q),
        ) < s by {
            if i < prev.len() {
                assert(cur[i] == prev[i]);
            } else {
                assert(cur[i] == b[i - prev.len()]);
            }
        }
        assert forall|x: int, y: int| 0 <= x < y < cur.len() implies rank_before(
            entries,
            q,
            #[trigger] cur[x],
            #[trigger] cur[y],
        ) by {
            if y < prev.len() {
                assert(cur[x] == prev[x] && cur[y] == prev[y]);
            } else if x < prev.len() {
                assert(cur[x] == prev[x]);
                assert(cur[y] == b[y - prev.len()]);
                assert(score_code(entry_score(entries[prev[x] as int], q)) < s - 1);
            } else {
                assert(cur[x] == b[x - prev.len()]);
                assert(cur[y] == b[y - prev.len()]);
                assert(b[x - prev.len()] < b[y - prev.len()]);
            }
        }
    }
}

/// The ranking of a query lists exactly the files that match it, each
/// once, best score first (a file name that starts with the query, then a
/// path segment that does, then the query anywhere in the path; every file
/// for the empty query) and, within a score, in the files' order.
pub proof fn law_ranking_is_by_score_then_position(entries: Seq<FileEntry>, q: Seq<char>)
    requires
        entries.len() <= usize::MAX,
    ensures
        forall|x: usize|
            #[trigger] ranked(entries, q).contains(x) <==> (x < entries.len() && entry_score(entries[x as int], q) is Some),
        forall|a: int, b: int|
            0 <= a < b < ranked(entries, q).len() ==> rank_before(
                entries,
                q,
                #[trigger] ranked(entries, q)[a],
                #[trigger] ranked(entries, q)[b],
            ),
{
    lemma_ranked(entries, q);
    lemma_ranked_upto_sorted(entries, q, 4);
    let r = ranked(entries, q);
    assert forall|x: usize| #[trigger] r.contains(x) <==> (x < entries.len() && entry_score(entries[x as int], q) is Some) by {
        if r.contains(x) {
            let k = choose|k: int| 0 <= k < r.len() && r[k] == x;
            assert(r[k] < entries.len());
        }
        if x < entries.len() && entry_score(entries[x as int], q) is Some {
            assert(r.contains((x as int) as usize));
        }
    }
}

/// The last query a worker ranked, and its ranking.
pub struct FilterCache {
    query: String,
    indices: Vec<usize>,
}

/// The mentions of the files at `indices`.
pub open spec fn mentions_of(entries: Seq<FileEntry>, indices: Seq<usize>, r: Seq<Mention>) -> bool {
    &&& r.len() == indices.len()
    &&& forall|i: int|
        0 <= i < r.len() ==> mention_path(#[trigger] r[i]) == entries[indices[i] as int].relative@
}

/// Two answers that both give a query's ranking name the same files in the
/// same order: what a worker answers (see `FileWorker::answer`) does not
/// depend on the ranking it kept from an earlier query.
pub proof fn law_answer_does_not_depend_on_cache(
    entries: Seq<FileEntry>,
    q: Seq<char>,
    r1: Seq<Mention>,
    r2: Seq<Mention>,
)
    requires
        mentions_of(entries, ranked(entries, q), r1),
        mentions_of(entries, ranked(entries, q), r2),
    ensures
        r1.len() == r2.len(),
        forall|i: int| 0 <= i < r1.len() ==> mention_path(#[trigger] r1[i]) == mention_path(r2[i]),
{
}

fn mentions_at(entries: &Vec<FileEntry>, indices: &Vec<usize>) -> (r: Vec<Mention>)
    requires
        forall|i: int| 0 <= i < indices@.len() ==> #[trigger] indices@[i] < entries.len(),
    ensures
        mentions_of(entries@, indices@, r@),
{
    let mut r: Vec<Mention> = Vec::new();
    for j in 0..indices.len()
        invariant
            forall|i: int| 0 <= i < indices@.len() ==> #[trigger] indices@[i] < entries.len(),
            r.len() == j,
            forall|i: int|
                0 <= i < j ==> mention_path(#[trigger] r@[i]) == entries@[indices@[i] as int].relative@,
    {
        let p = entries[indices[j]].relative.clone();
        r.push(Mention::File(p));
    }
    r
}

/// Ranks the files against a lower-cased query. When the query extends the
/// cached one, only the files the cached ranking kept are scored again.
fn find_matches(entries: &Vec<FileEntry>, cache: &FilterCache, query: &str) -> (r: (
    Vec<Mention>,
    Option<FilterCache>,
))
    requires
        cache.indices@ == ranked(entries@, cache.query@),
    ensures
        r.1 is None ==> cache.query@ == query@,
        r.1 matches Some(c) ==> c.query@ == query@ && c.indices@ == ranked(entries@, query@),
        mentions_of(entries@, ranked(entries@, query@), r.0@),
{
    let ghost es = entries@;
    let ghost old_q = cache.query@;
    let n = entries.len();
    proof {
        lemma_ranked(es, old_q);
        lemma_ranked(es, query@);
    }
    let owned = query.to_owned();
    if owned == cache.query {
        return (mentions_at(entries, &cache.indices), None);
    }
    let qc = to_chars(query);
    let cc = to_chars(cache.query.as_str());
    let growing = has_prefix(qc.as_slice(), cc.as_slice());
    let mut candidate: Vec<bool> = Vec::new();
    for i in 0..n
        invariant
            candidate.len() == i,
            forall|k: int| 0 <= k < i ==> candidate@[k] == !growing,
    {
        candidate.push(!growing);
    }
    if growing {
        let cands = &cache.indices;
        for j in 0..cands.len()
            invariant
                candidate.len() == n,
                n == es.len(),
                es == entries@,
                cands@ == ranked(es, old_q),
                forall|i: int| 0 <= i < cands@.len() ==> #[trigger] cands@[i] < es.len(),
                forall|k: int|
                    0 <= k < n ==> (#[trigger] candidate@[k] <==> cands@.take(j as int).contains(
                        k as usize,
                    )),
        {
            let c = cands[j];
            candidate.set(c, true);
            proof {
                assert(cands@.take(j + 1) == cands@.take(j as int).push(c));
                assert(cands@.take(j + 1)[j as int] == c);
                assert forall|k: int| 0 <= k < n implies (#[trigger] candidate@[k]
                    <==> cands@.take(j + 1).contains(k as usize)) by {
                    if cands@.take(j as int).contains(k as usize) {
                        let m = choose|m: int|
                            0 <= m < j && #[trigger] cands@.take(j as int)[m] == k as usize;
                        assert(cands@.take(j + 1)[m] == k as usize);
                    }
                    if cands@.take(j + 1).contains(k as usize) && k as usize != c {
                        let m = choose|m: int|
                            0 <= m < j + 1 && #[trigger] cands@.take(j + 1)[m] == k as usize;
                        assert(cands@.take(j as int)[m] == k as usize);
                    }
                }
            }
        }
        proof {
            assert(cands@.take(cands.len() as int) == cands@);
            assert forall|k: int| 0 <= k < n && entry_score(es[k], query@) is Some implies #[trigger] candidate@[k] by {
                lemma_score_prefix(es[k], old_q, query@);
            }
        }
    }
    assert(forall|k: int| 0 <= k < n && entry_score(es[k], query@) is Some ==> #[trigger] candidate@[k]);
    let mut scores: Vec<u8> = Vec::new();
    for i in 0..n
        invariant
            n == es.len(),
            es == entries@,
            qc@ == query@,
            candidate.len() == n,
            forall|k: int| 0 <= k < n && entry_score(es[k], query@) is Some ==> #[trigger] candidate@[k],
            scores.len() == i,
            forall|k: int| 0 <= k < i ==> #[trigger] scores@[k] == score_code(entry_score(es[k], query@)),
    {
        let code = if candidate[i] {
            match file_match_score(&entries[i], &qc) {
                Some(x) => x,
                None => 4,
            }
        } else {
            4
        };
        scores.push(code);
    }
    let mut out: Vec<usize> = Vec::new();
    let mut s: u8 = 0;
    while s < 4
        invariant
            s <= 4,
            n == es.len(),
            scores.len() == n,
            forall|k: int| 0 <= k < n ==> #[trigger] scores@[k] == score_code(entry_score(es[k], query@)),
            out@ == ranked_upto(es, query@, s as nat),
        decreases 4 - s,
    {
        let ghost before = out@;
        for i in 0..n
            invariant
                s < 4,
                n == es.len(),
                scores.len() == n,
                forall|k: int| 0 <= k < n ==> #[trigger] scores@[k] == score_code(entry_score(es[k], query@)),
                out@ == before + bucket_upto(es, query@, s, i as nat),
        {
            if scores[i] == s {
                out.push(i);
            }
            proof {
                let sc = entry_score(es[i as int], query@);
                if sc is Some {
                    assert(sc->0 <= 3);
                }
            }
        }
        s = s + 1;
    }
    let found = mentions_at(entries, &out);
    (found, Some(FilterCache { query: owned, indices: out }))
}

/// The ranking side of file mentions: the index of files and the cached
/// ranking of the last query.
pub struct FileWorker {
    entries: Vec<FileEntry>,
    cache: FilterCache,
}

impl FileWorker {
    pub closed spec fn entries(&self) -> Seq<FileEntry> {
        self.entries@
    }

    #[verifier::type_invariant]
    closed spec fn cache_is_current(&self) -> bool {
        self.cache.indices@ == ranked(self.entries@, self.cache.query@)
    }

    /// A worker over an index of files, kept in the given order.
    pub fn new(entries: Vec<FileEntry>) -> (w: FileWorker)
        ensures
            w.entries() == entries@,
    {
        let mut indices: Vec<usize> = Vec::new();
        for i in 0..entries.len()
            invariant
                indices@ == Seq::new(i as nat, |k: int| k as usize),
        {
            indices.push(i);
            assert(indices@ =~= Seq::new((i + 1) as nat, |k: int| k as usize));
        }
        proof {
            lemma_ranked_empty_query(entries@);
        }
        let query = String::new();
        FileWorker { entries, cache: FilterCache { query, indices } }
    }

    /// Answers one request with the ranking of its query.
    pub fn answer(&mut self, request: WorkerRequest) -> (r: WorkerResponse)
        ensures
            final(self).entries() == old(self).entries(),
            r.request_id == request.request_id,
            r.query@ == request.query@,
            mentions_of(old(self).entries(), ranked(old(self).entries(), request.query@), r.matches@),
    {
        proof {
            use_type_invariant(&*self);
        }
        let (matches, refreshed) = find_matches(&self.entries, &self.cache, request.query.as_str());
        match refreshed {
            Some(cache) => {
                self.cache = cache;
            },
            None => {},
        }
        WorkerResponse { request_id: request.request_id, query: request.query, matches }
    }
}

// ---------------------------------------------------------------------------
// The source that talks to the worker
// ---------------------------------------------------------------------------

/// A ranking request sent to the worker.
pub struct WorkerRequest {
    pub request_id: u64,
    pub query: String,
}

/// The worker's ranking for one request.
pub struct WorkerResponse {
    pub request_id: u64,
    pub query: String,
    pub matches: Vec<Mention>,
}

/// What the worker reports: that its index is built, or a ranking.
pub enum WorkerEvent {
    Ready,
    Response(WorkerResponse),
}

/// The requesting side of file mentions. The worker runs elsewhere; the caller
/// hands this state each event the worker sends, and sends the requests this
/// state prepares.
pub struct FileMentionSource {
    pub root: String,
    pub index_ready: bool,
    pub last_requested_query: Option<String>,
    pub pending_request_id: Option<u64>,
    pub last_completed_request_id: u64,
    pub latest_query: Option<String>,
    pub latest_matches: Vec<Mention>,
    pub next_request_id: u64,
}

pub open spec fn opt_view(o: Option<String>) -> Option<Seq<char>> {
    match o {
        Some(s) => Some(s@),
        None => None,
    }
}

pub(crate) fn opt_is(o: &Option<String>, s: &String) -> (b: bool)
    ensures
        b == (opt_view(*o) == Some(s@)),
{
    match o {
        Some(t) => *t == *s,
        None => false,
    }
}

impl FileMentionSource {
    /// A source for the project at `root`, with nothing indexed or asked yet.
    pub fn new(root: String) -> (s: FileMentionSource)
        ensures
            s.root == root,
            !s.index_ready,
            s.last_requested_query is None,
            s.pending_request_id is None,
            s.last_completed_request_id == 0,
            s.latest_query is None,
            s.latest_matches@.len() == 0,
            s.next_request_id == 0,
    {
        FileMentionSource {
            root,
            index_ready: false,
            last_requested_query: None,
            pending_request_id: None,
            last_completed_request_id: 0,
            latest_query: None,
            latest_matches: Vec::new(),
            next_request_id: 0,
        }
    }

    /// Whether the index is still being built or a request is unanswered.
    pub fn has_pending_work(&self) -> (b: bool)
        ensures
            b == (!self.index_ready || self.pending_request_id is Some),
    {
        !self.index_ready || self.pending_request_id.is_some()
    }

    /// Whether the answer for `query` may still change: the index is not
    /// built, or a request is unanswered and the newest answer is for another
    /// query.
    pub fn loading_for_query(&self, query: &str) -> (b: bool)
        ensures
            b == (!self.index_ready || (self.pending_request_id is Some && opt_view(
                self.latest_query,
            ) != Some(ascii_lower_seq(query@)))),
    {
        let normalized = ascii_lowercase(query);
        !self.index_ready || (self.pending_request_id.is_some() && !opt_is(
            &self.latest_query,
            &normalized,
        ))
    }

    /// Takes in one event from the worker. A ranking older than the newest one
    /// taken is dropped; a newer one replaces the latest answer and clears the
    /// pending request if it answers it or an older one.
    pub fn handle_event(&mut self, event: WorkerEvent)
        ensures
            final(self).root == old(self).root,
            final(self).last_requested_query == old(self).last_requested_query,
            final(self).next_request_id == old(self).next_request_id,
            final(self).last_completed_request_id >= old(self).last_completed_request_id,
            match event {
                WorkerEvent::Ready => {
                    &&& final(self).index_ready
                    &&& final(self).pending_request_id == old(self).pending_request_id
                    &&& final(self).last_completed_request_id == old(self).last_completed_request_id
                    &&& final(self).latest_query == old(self).latest_query
                    &&& final(self).latest_matches == old(self).latest_matches
                },
                WorkerEvent::Response(resp) => if resp.request_id < old(self).last_completed_request_id {
                    *final(self) == *old(self)
                } else {
                    &&& final(self).index_ready == old(self).index_ready
                    &&& final(self).last_completed_request_id == resp.request_id
                    &&& opt_view(final(self).latest_query) == Some(resp.query@)
                    &&& final(self).latest_matches == resp.matches
                    &&& final(self).pending_request_id == (match old(self).pending_request_id {
                        Some(id) => if id <= resp.request_id {
                            None
                        } else {
                            Some(id)
                        },
                        None => None,
                    })
                },
            },
    {
        match event {
            WorkerEvent::Ready => {
                self.index_ready = true;
            },
            WorkerEvent::Response(response) => {
                if response.request_id < self.last_completed_request_id {
                    return ;
                }
                self.last_completed_request_id = response.request_id;
                self.latest_query = Some(response.query);
                self.latest_matches = response.matches;
                match self.pending_request_id {
                    Some(id) => {
                        if id == response.request_id || id < response.request_id {
                            self.pending_request_id = None;
                        }
                    },
                    None => {},
                }
            },
        }
    }

    /// Whether `normalized` still has to be asked for.
    pub fn needs_request(&self, normalized: &String) -> (b: bool)
        ensures
            b == (opt_view(self.last_requested_query) != Some(normalized@)),
    {
        !opt_is(&self.last_requested_query, normalized)
    }

    /// The next request, for `normalized`, under a fresh (wrapping) id.
    pub fn next_request(&mut self, normalized: &String) -> (r: WorkerRequest)
        ensures
            final(self).next_request_id == (if old(self).next_request_id == u64::MAX {
                0
            } else {
                (old(self).next_request_id + 1) as u64
            }),
            r.request_id == final(self).next_request_id,
            r.query@ == normalized@,
            *final(self) == (FileMentionSource {
                next_request_id: final(self).next_request_id,
                ..*old(self)
            }),
    {
        self.next_request_id = self.next_request_id.wrapping_add(1);
        WorkerRequest { request_id: self.next_request_id, query: normalized.clone() }
    }

    /// Records whether the request reached the worker: if it did it is now the
    /// pending one, otherwise nothing is pending.
    pub fn request_sent(&mut self, request_id: u64, query: &String, delivered: bool)
        ensures
            final(self).root == old(self).root,
            final(self).index_ready == old(self).index_ready,
            final(self).last_completed_request_id == old(self).last_completed_request_id,
            final(self).latest_query == old(self).latest_query,
            final(self).latest_matches == old(self).latest_matches,
            final(self).next_request_id == old(self).next_request_id,
            delivered ==> opt_view(final(self).last_requested_query) == Some(query@)
                && final(self).pending_request_id == Some(request_id),
            !delivered ==> final(self).last_requested_query == old(self).last_requested_query
                && final(self).pending_request_id is None,
    {
        if delivered {
            self.last_requested_query = Some(query.clone());
            self.pending_request_id = Some(request_id);
        } else {
            self.pending_request_id = None;
        }
    }

    /// The matches to show for `normalized`: the latest answer if it is for
    /// that query, else none.
    pub fn answer(&self, normalized: &String) -> (r: Vec<Mention>)
        ensures
            opt_view(self.latest_query) == Some(normalized@) ==> r.len()
                == self.latest_matches.len() && forall|i: int|
                0 <= i < r.len() ==> cloned(self.latest_matches@[i], #[trigger] r@[i]),
            opt_view(self.latest_query) != Some(normalized@) ==> r.len() == 0,
    {
        if opt_is(&self.latest_query, normalized) {
            self.latest_matches.clone()
        } else {
            Vec::new()
        }
    }
}

// ---------------------------------------------------------------------------
// Walking the project
// ---------------------------------------------------------------------------

/// What one `.gitignore` on the way to a path says of it.
#[derive(Debug, Clone, Copy, PartialEq, Eq, Structural)]
pub enum IgnoreVerdict {
    Ignore,
    Whitelist,
    NoMatch,
}

/// Whether a path is ignored: the verdict of the deepest `.gitignore` that
/// has one (the stack is ordered from the root down); not ignored when none
/// has.
pub open spec fn ignored_by(verdicts: Seq<IgnoreVerdict>) -> bool
    decreases verdicts.len(),
{
    if verdicts.len() == 0 {
        false
    } else {
        match verdicts.last() {
            IgnoreVerdict::Ignore => true,
            IgnoreVerdict::Whitelist => false,
            IgnoreVerdict::NoMatch => ignored_by(verdicts.drop_last()),
        }
    }
}

/// Whether the stack of `.gitignore` verdicts ignores the path.
pub fn is_ignored_by_stack(verdicts: &Vec<IgnoreVerdict>) -> (b: bool)
    ensures
        b == ignored_by(verdicts@),
{
    let mut state: Option<bool> = None;
    for i in 0..verdicts.len()
        invariant
            match state {
                Some(x) => x == ignored_by(verdicts@.take(i as int)),
                None => !ignored_by(verdicts@.take(i as int)) && forall|j: int| 0 <= j < i ==> verdicts@[j] == IgnoreVerdict::NoMatch,
            },
    {
        let ghost t = verdicts@.take(i + 1);
        assert(t.drop_last() == verdicts@.take(i as int));
        match verdicts[i] {
            IgnoreVerdict::Ignore => state = Some(true),
            IgnoreVerdict::Whitelist => state = Some(false),
            IgnoreVerdict::NoMatch => {},
        }
    }
    assert(verdicts@.take(verdicts.len() as int) == verdicts@);
    match state {
        Some(x) => x,
        None => false,
    }
}

/// Entries in order of displayed path.
/// The displayed path of an entry, as a function.
pub open spec fn display_fn() -> spec_fn(FileEntry) -> Seq<char> {
    |e: FileEntry| e.display@
}

pub open spec fn sorted_by_display(v: Seq<FileEntry>) -> bool {
    forall|i: int, j: int| 0 <= i < j < v.len() ==> chars_le((#[trigger] v[i]).display@, (#[trigger] v[j]).display@)
}

/// Sorts the project's files by displayed path (repeatedly taking the first
/// entry of least path, so equal paths keep their order).
pub fn sort_entries(entries: Vec<FileEntry>) -> (r: Vec<FileEntry>)
    ensures
        r@.to_multiset() == entries@.to_multiset(),
        sorted_by_display(r@),
        exists|pos: Seq<int>| #[trigger] stable_perm(entries@, r@, display_fn(), pos),
{
    let mut keys: Vec<Vec<char>> = Vec::new();
    for i in 0..entries.len()
        invariant
            keys.len() == i,
            forall|k: int| 0 <= k < i ==> (#[trigger] keys@[k])@ == entries@[k].display@,
    {
        keys.push(to_chars(entries[i].display.as_str()));
    }
    let ghost key = display_fn();
    let r = sort_by_key_stable(entries, keys, Ghost(key));
    assert(sorted_by_display(r@)) by {
        assert forall|i: int, j: int| 0 <= i < j < r@.len() implies chars_le((#[trigger] r@[i]).display@, (#[trigger] r@[j]).display@) by {
            assert(chars_le(key(r@[i]), key(r@[j])));
        }
    }
    r
}

} // verus!
