//! The skill tool: skills under `.agents/skills`, each a directory with a
//! `SKILL.md` whose front matter may name and describe it.

use vstd::prelude::*;

use crate::event::{DisplayBody, ToolCallDisplay, ToolResultDisplay};
use crate::hashline::{lowercase, unicode_lowercase};
use crate::order::{sort_by_key_stable, stable_perm};
use crate::text::{
    ascii_lower, ascii_lower_seq, push_str, starts_with, string_from_range, to_ascii_lower_char,
    to_chars, trim, trim_bounds, trim_str,
};

verus! {

// ---------------------------------------------------------------------------
// Walking the lines of a text
// ---------------------------------------------------------------------------

/// Where the line starting at `p` ends: just after the next `\n`, or at the end.
pub open spec fn line_end(s: Seq<char>, p: int) -> int
    decreases s.len() - p,
{
    if p < 0 || p >= s.len() {
        s.len() as int
    } else if s[p] == '\n' {
        p + 1
    } else {
        line_end(s, p + 1)
    }
}

pub proof fn lemma_line_end(s: Seq<char>, p: int)
    requires
        0 <= p < s.len(),
    ensures
        p < line_end(s, p) <= s.len(),
    decreases s.len() - p,
{
    if s[p] != '\n' {
        if p + 1 < s.len() {
            lemma_line_end(s, p + 1);
        } else {
            assert(line_end(s, p + 1) == s.len());
        }
    }
}

/// Whether a line is the closing `---` of front matter.
pub open spec fn is_fence(line: Seq<char>) -> bool {
    trim(line) == "---"@
}

/// The start of the first line at or after `p` that is a fence.
pub open spec fn find_fence(s: Seq<char>, p: int) -> Option<int>
    decreases s.len() - p,
{
    if p < 0 || p >= s.len() {
        None
    } else {
        let e = line_end(s, p);
        if is_fence(s.subrange(p, e)) {
            Some(p)
        } else {
            proof {
                lemma_line_end(s, p);
            }
            find_fence(s, e)
        }
    }
}

/// Where the text after the opening `---` line begins, if the text opens with one.
pub open spec fn fence_open_len(s: Seq<char>) -> Option<int> {
    if starts_with(s, "---\n"@) {
        Some(4)
    } else if starts_with(s, "---\r\n"@) {
        Some(5)
    } else {
        None
    }
}

/// The front matter and the body of a text that opens with a `---` line and has
/// a later line that is `---` (surrounding white space aside).
pub open spec fn frontmatter_split(s: Seq<char>) -> Option<(Seq<char>, Seq<char>)> {
    match fence_open_len(s) {
        None => None,
        Some(k) => {
            let rest = s.skip(k);
            match find_fence(rest, 0) {
                None => None,
                Some(p) => Some((rest.take(p), rest.skip(line_end(rest, p)))),
            }
        },
    }
}

pub fn line_end_exec(s: &Vec<char>, p: usize) -> (e: usize)
    requires
        p < s.len(),
    ensures
        e == line_end(s@, p as int),
        p < e <= s.len(),
{
    let mut i = p;
    proof {
        lemma_line_end(s@, p as int);
    }
    while i < s.len() && s[i] != '\n'
        invariant
            p <= i <= s.len(),
            line_end(s@, p as int) == line_end(s@, i as int),
        decreases s.len() - i,
    {
        i = i + 1;
    }
    if i < s.len() {
        i + 1
    } else {
        i
    }
}

fn is_fence_exec(s: &Vec<char>, from: usize, to: usize) -> (b: bool)
    requires
        from <= to <= s.len(),
    ensures
        b == is_fence(s@.subrange(from as int, to as int)),
{
    let mut piece: Vec<char> = Vec::new();
    let mut i = from;
    while i < to
        invariant
            from <= i <= to <= s.len(),
            piece@ == s@.subrange(from as int, i as int),
        decreases to - i,
    {
        piece.push(s[i]);
        i = i + 1;
    }
    proof {
        reveal_strlit("---");
    }
    let (a, b) = trim_bounds(&piece);
    assert(piece@ == s@.subrange(from as int, to as int));
    assert(trim(piece@).len() == b - a);
    if b - a != 3 {
        assert("---"@.len() == 3);
        return false;
    }
    let r = piece[a] == '-' && piece[a + 1] == '-' && piece[a + 2] == '-';
    proof {
        let t = piece@.subrange(a as int, b as int);
        if r {
            assert(t =~= "---"@);
        } else {
            assert(t != "---"@) by {
                if t == "---"@ {
                    assert(t[0] == '-' && t[1] == '-' && t[2] == '-');
                }
            }
        }
    }
    r
}

/// Splits a text into its front matter and its body, when it has front matter.
pub fn split_frontmatter(content: &str) -> (r: Option<(String, String)>)
    ensures
        match frontmatter_split(content@) {
            None => r is None,
            Some((yaml, body)) => r matches Some((y, b)) && y@ == yaml && b@ == body,
        },
{
    let cs = to_chars(content);
    proof {
        reveal_strlit("---\n");
        reveal_strlit("---\r\n");
    }
    let opens_lf = cs.len() >= 4 && cs[0] == '-' && cs[1] == '-' && cs[2] == '-' && cs[3] == '\n';
    let opens_crlf = cs.len() >= 5 && cs[0] == '-' && cs[1] == '-' && cs[2] == '-' && cs[3] == '\r'
        && cs[4] == '\n';
    proof {
        let c = content@;
        assert(cs@ == c);
        if starts_with(c, "---\n"@) {
            assert(c[0] == c.take(4)[0] && c[1] == c.take(4)[1] && c[2] == c.take(4)[2] && c[3]
                == c.take(4)[3]);
        }
        if opens_lf {
            assert(c.take(4) =~= "---\n"@);
        }
        if starts_with(c, "---\r\n"@) {
            assert(c[0] == c.take(5)[0] && c[1] == c.take(5)[1] && c[2] == c.take(5)[2] && c[3]
                == c.take(5)[3] && c[4] == c.take(5)[4]);
        }
        if opens_crlf {
            assert(c.take(5) =~= "---\r\n"@);
        }
    }
    let k: usize = if opens_lf {
        4
    } else if opens_crlf {
        5
    } else {
        return None;
    };
    let mut rest: Vec<char> = Vec::new();
    let mut i = k;
    while i < cs.len()
        invariant
            k <= i <= cs.len(),
            cs@ == content@,
            rest@ == content@.subrange(k as int, i as int),
        decreases cs.len() - i,
    {
        rest.push(cs[i]);
        i = i + 1;
    }
    assert(rest@ == content@.skip(k as int));
    assert(fence_open_len(content@) == Some(k as int));
    let mut p: usize = 0;
    while p < rest.len()
        invariant
            p <= rest.len(),
            rest@ == content@.skip(k as int),
            fence_open_len(content@) == Some(k as int),
            find_fence(rest@, 0) == find_fence(rest@, p as int),
        decreases rest.len() - p,
    {
        let e = line_end_exec(&rest, p);
        if is_fence_exec(&rest, p, e) {
            let yaml = string_from_range(rest.as_slice(), 0, p);
            let body = string_from_range(rest.as_slice(), e, rest.len());
            assert(rest@.take(p as int) == rest@.subrange(0, p as int));
            assert(rest@.skip(e as int) == rest@.subrange(e as int, rest.len() as int));
            return Some((yaml, body));
        }
        p = e;
    }
    None
}

/// Whether a trimmed line says something: it is not empty and not a heading.
pub open spec fn is_content_line(t: Seq<char>) -> bool {
    t.len() > 0 && t[0] != '#'
}

/// The first line at or after `p` that says something, trimmed.
pub open spec fn first_content_line(s: Seq<char>, p: int) -> Option<Seq<char>>
    decreases s.len() - p,
{
    if p < 0 || p >= s.len() {
        None
    } else {
        let e = line_end(s, p);
        let t = trim(s.subrange(p, e));
        if is_content_line(t) {
            Some(t)
        } else {
            proof {
                lemma_line_end(s, p);
            }
            first_content_line(s, e)
        }
    }
}

/// The first line of a body that is neither blank nor a heading, trimmed.
pub fn first_body_line(body: &str) -> (r: Option<String>)
    ensures
        match first_content_line(body@, 0) {
            None => r is None,
            Some(t) => r matches Some(x) && x@ == t,
        },
{
    let cs = to_chars(body);
    let mut p: usize = 0;
    while p < cs.len()
        invariant
            p <= cs.len(),
            cs@ == body@,
            first_content_line(body@, 0) == first_content_line(body@, p as int),
        decreases cs.len() - p,
    {
        let e = line_end_exec(&cs, p);
        let line = string_from_range(cs.as_slice(), p, e);
        let trimmed = trim_str(line.as_str());
        let tc = to_chars(trimmed.as_str());
        if tc.len() > 0 && tc[0] != '#' {
            return Some(trimmed);
        }
        p = e;
    }
    None
}

// ---------------------------------------------------------------------------
// Skills
// ---------------------------------------------------------------------------

/// The tool's input.
#[derive(Clone)]
pub struct SkillInput {
    /// Skill name to load from `.agents/skills`.
    pub name: String,
}

/// A skill found on disk: its name, description and the path of its `SKILL.md`.
#[derive(Clone)]
pub struct SkillEntry {
    pub name: String,
    pub description: String,
    pub path: String,
}

/// The fields a skill's front matter may set.
pub struct SkillFrontmatter {
    pub name: Option<String>,
    pub description: Option<String>,
}

/// A front matter field, trimmed, when it says something.
pub open spec fn given(field: Option<String>) -> Option<Seq<char>> {
    match field {
        Some(v) => if trim(v@).len() > 0 {
            Some(trim(v@))
        } else {
            None
        },
        None => None,
    }
}

fn given_field(field: &Option<String>) -> (r: Option<String>)
    ensures
        match given(*field) {
            Some(t) => r matches Some(x) && x@ == t,
            None => r is None,
        },
{
    match field {
        Some(v) => {
            let t = trim_str(v.as_str());
            if t.as_str().is_empty() {
                None
            } else {
                Some(t)
            }
        },
        None => None,
    }
}

/// The name of a skill: the front matter's, or the directory's name.
pub open spec fn skill_name_of(fm: Option<SkillFrontmatter>, fallback: Seq<char>) -> Seq<char> {
    match fm {
        Some(f) => match given(f.name) {
            Some(n) => n,
            None => fallback,
        },
        None => fallback,
    }
}

/// The description of a skill: the front matter's, or the first line of the
/// body that says something, or a placeholder.
pub open spec fn skill_description_of(fm: Option<SkillFrontmatter>, body: Seq<char>) -> Seq<char> {
    let from_fm = match fm {
        Some(f) => given(f.description),
        None => None,
    };
    match from_fm {
        Some(d) => d,
        None => match first_content_line(body, 0) {
            Some(l) => l,
            None => "No description provided."@,
        },
    }
}

/// The name and description of a skill from its parsed front matter (if it has
/// one that parses), its body, and its directory's name.
pub fn skill_metadata(frontmatter: Option<SkillFrontmatter>, body: &str, fallback_name: &str) -> (r: (
    String,
    String,
))
    ensures
        r.0@ == skill_name_of(frontmatter, fallback_name@),
        r.1@ == skill_description_of(frontmatter, body@),
{
    let (name_field, description_field) = match &frontmatter {
        Some(f) => (given_field(&f.name), given_field(&f.description)),
        None => (None, None),
    };
    let name = match name_field {
        Some(n) => n,
        None => fallback_name.to_owned(),
    };
    let description = match description_field {
        Some(d) => d,
        None => match first_body_line(body) {
            Some(l) => l,
            None => "No description provided.".to_owned(),
        },
    };
    (name, description)
}

// ---------------------------------------------------------------------------
// Ordering skills by name
// ---------------------------------------------------------------------------

/// Lexicographic order of character sequences (the order of `String`s).
pub open spec fn chars_le(a: Seq<char>, b: Seq<char>) -> bool
    decreases a.len(),
{
    if a.len() == 0 {
        true
    } else if b.len() == 0 {
        false
    } else if a[0] != b[0] {
        a[0] < b[0]
    } else {
        chars_le(a.drop_first(), b.drop_first())
    }
}

pub proof fn lemma_chars_le_total(a: Seq<char>, b: Seq<char>)
    ensures
        chars_le(a, b) || chars_le(b, a),
    decreases a.len(),
{
    if a.len() > 0 && b.len() > 0 && a[0] == b[0] {
        lemma_chars_le_total(a.drop_first(), b.drop_first());
    }
}

pub proof fn lemma_chars_le_trans(a: Seq<char>, b: Seq<char>, c: Seq<char>)
    requires
        chars_le(a, b),
        chars_le(b, c),
    ensures
        chars_le(a, c),
    decreases a.len(),
{
    if a.len() > 0 && b.len() > 0 && c.len() > 0 && a[0] == b[0] && b[0] == c[0] {
        lemma_chars_le_trans(a.drop_first(), b.drop_first(), c.drop_first());
    }
}

pub fn chars_le_exec(a: &Vec<char>, b: &Vec<char>) -> (r: bool)
    ensures
        r == chars_le(a@, b@),
{
    let mut i: usize = 0;
    assert(a@.skip(0) == a@);
    assert(b@.skip(0) == b@);
    while i < a.len() && i < b.len() && a[i] == b[i]
        invariant
            i <= a.len(),
            i <= b.len(),
            chars_le(a@, b@) == chars_le(a@.skip(i as int), b@.skip(i as int)),
        decreases a.len() - i,
    {
        assert(a@.skip(i as int).drop_first() == a@.skip(i + 1));
        assert(b@.skip(i as int).drop_first() == b@.skip(i + 1));
        i = i + 1;
    }
    if i == a.len() {
        true
    } else if i == b.len() {
        false
    } else {
        assert(a@.skip(i as int)[0] == a@[i as int]);
        assert(b@.skip(i as int)[0] == b@[i as int]);
        a[i] < b[i]
    }
}

/// The key skills are listed by: the name, lower-cased.
pub open spec fn skill_key(e: SkillEntry) -> Seq<char> {
    unicode_lowercase(e.name@)
}

/// The key of skills, as a function.
pub open spec fn skill_key_fn() -> spec_fn(SkillEntry) -> Seq<char> {
    |e: SkillEntry| skill_key(e)
}

pub open spec fn sorted_by_key(s: Seq<SkillEntry>) -> bool {
    forall|i: int, j: int| 0 <= i < j < s.len() ==> chars_le(skill_key(#[trigger] s[i]), skill_key(#[trigger] s[j]))
}

/// The skills ordered by lower-cased name; of skills with the same key, the
/// one listed first stays first.
pub fn sort_skills(skills: Vec<SkillEntry>) -> (r: Vec<SkillEntry>)
    ensures
        r@.to_multiset() == skills@.to_multiset(),
        sorted_by_key(r@),
        exists|pos: Seq<int>| #[trigger] stable_perm(skills@, r@, skill_key_fn(), pos),
{
    let mut keys: Vec<Vec<char>> = Vec::new();
    for i in 0..skills.len()
        invariant
            keys.len() == i,
            forall|k: int| 0 <= k < i ==> (#[trigger] keys@[k])@ == skill_key(skills@[k]),
    {
        let l = lowercase(skills[i].name.as_str());
        keys.push(to_chars(l.as_str()));
    }
    let ghost key = skill_key_fn();
    let r = sort_by_key_stable(skills, keys, Ghost(key));
    assert(sorted_by_key(r@)) by {
        assert forall|i: int, j: int| 0 <= i < j < r@.len() implies chars_le(skill_key(#[trigger] r@[i]), skill_key(#[trigger] r@[j])) by {
            assert(chars_le(key(r@[i]), key(r@[j])));
        }
    }
    r
}

// ---------------------------------------------------------------------------
// Choosing and presenting a skill
// ---------------------------------------------------------------------------

/// The first skill whose name is `name`, else the first whose name equals it
/// ignoring ASCII case.
pub open spec fn chosen_skill(skills: Seq<SkillEntry>, name: Seq<char>) -> Option<int> {
    if exists|i: int| 0 <= i < skills.len() && (#[trigger] skills[i]).name@ == name {
        Some(choose|i: int| 0 <= i < skills.len() && (#[trigger] skills[i]).name@ == name && forall|k: int| 0 <= k < i ==> skills[k].name@ != name)
    } else if exists|i: int| 0 <= i < skills.len() && ascii_lower_seq((#[trigger] skills[i]).name@) == ascii_lower_seq(name) {
        Some(choose|i: int| 0 <= i < skills.len() && ascii_lower_seq((#[trigger] skills[i]).name@) == ascii_lower_seq(name) && forall|k: int| 0 <= k < i ==> ascii_lower_seq(skills[k].name@) != ascii_lower_seq(name))
    } else {
        None
    }
}

fn same_chars(a: &Vec<char>, b: &Vec<char>) -> (r: bool)
    ensures
        r == (a@ == b@),
{
    if a.len() != b.len() {
        return false;
    }
    for i in 0..a.len()
        invariant
            a.len() == b.len(),
            forall|k: int| 0 <= k < i ==> a@[k] == b@[k],
    {
        if a[i] != b[i] {
            return false;
        }
    }
    assert(a@ =~= b@);
    true
}

fn ascii_lower_chars(s: &str) -> (r: Vec<char>)
    ensures
        r@ == ascii_lower_seq(s@),
{
    let cs = to_chars(s);
    let mut r: Vec<char> = Vec::new();
    for i in 0..cs.len()
        invariant
            cs@ == s@,
            r@ == ascii_lower_seq(s@.take(i as int)),
    {
        r.push(to_ascii_lower_char(cs[i]));
        assert(ascii_lower_seq(s@.take(i + 1)) =~= ascii_lower_seq(s@.take(i as int)).push(
            ascii_lower(s@[i as int]),
        ));
    }
    assert(s@.take(cs.len() as int) == s@);
    r
}

/// The index of the skill `name` picks: an exact match first, else a match
/// ignoring ASCII case.
pub fn select_skill(skills: &Vec<SkillEntry>, name: &str) -> (r: Option<usize>)
    ensures
        match chosen_skill(skills@, name@) {
            Some(i) => r == Some(i as usize),
            None => r is None,
        },
{
    let target = to_chars(name);
    for i in 0..skills.len()
        invariant
            target@ == name@,
            forall|k: int| 0 <= k < i ==> skills@[k].name@ != name@,
    {
        let n = to_chars(skills[i].name.as_str());
        if same_chars(&n, &target) {
            proof {
                let w = choose|j: int| 0 <= j < skills@.len() && (#[trigger] skills@[j]).name@ == name@ && forall|k: int| 0 <= k < j ==> skills@[k].name@ != name@;
                assert(0 <= i < skills@.len() && skills@[i as int].name@ == name@ && forall|k: int| 0 <= k < i ==> skills@[k].name@ != name@);
                if w < i {
                } else if w > i {
                    assert(skills@[i as int].name@ != name@);
                }
            }
            return Some(i);
        }
    }
    let lowered = ascii_lower_chars(name);
    for i in 0..skills.len()
        invariant
            lowered@ == ascii_lower_seq(name@),
            forall|k: int| 0 <= k < skills@.len() ==> skills@[k].name@ != name@,
            forall|k: int| 0 <= k < i ==> ascii_lower_seq(skills@[k].name@) != ascii_lower_seq(name@),
    {
        let n = ascii_lower_chars(skills[i].name.as_str());
        if same_chars(&n, &lowered) {
            proof {
                let w = choose|j: int| 0 <= j < skills@.len() && ascii_lower_seq((#[trigger] skills@[j]).name@) == ascii_lower_seq(name@) && forall|k: int| 0 <= k < j ==> ascii_lower_seq(skills@[k].name@) != ascii_lower_seq(name@);
                assert(0 <= i < skills@.len() && ascii_lower_seq(skills@[i as int].name@) == ascii_lower_seq(name@) && forall|k: int| 0 <= k < i ==> ascii_lower_seq(skills@[k].name@) != ascii_lower_seq(name@));
                if w < i {
                } else if w > i {
                    assert(ascii_lower_seq(skills@[i as int].name@) != ascii_lower_seq(name@));
                }
            }
            return Some(i);
        }
    }
    None
}

pub open spec fn skill_names(skills: Seq<SkillEntry>) -> Seq<Seq<char>> {
    skills.map_values(|e: SkillEntry| e.name@)
}

/// The message for a name that picks no skill.
pub open spec fn unknown_skill_text(skills: Seq<SkillEntry>, name: Seq<char>) -> Seq<char> {
    "unknown skill `"@ + name + "`. Available skills: "@ + if skills.len() == 0 {
        "(none)"@
    } else {
        crate::hashline::join(skill_names(skills), ", "@)
    }
}

/// Says that no skill is called `name`, and lists the known ones.
pub fn unknown_skill_message(skills: &Vec<SkillEntry>, name: &str) -> (m: String)
    ensures
        m@ == unknown_skill_text(skills@, name@),
{
    let mut m = String::new();
    push_str(&mut m, "unknown skill `");
    push_str(&mut m, name);
    push_str(&mut m, "`. Available skills: ");
    if skills.len() == 0 {
        push_str(&mut m, "(none)");
    } else {
        let mut names: Vec<String> = Vec::new();
        for i in 0..skills.len()
            invariant
                crate::hashline::views(names@) == skill_names(skills@.take(i as int)),
        {
            names.push(skills[i].name.clone());
            proof {
                crate::hashline::lemma_views_push(names@.drop_last(), skills@[i as int].name);
                assert(names@.drop_last().push(skills@[i as int].name) == names@);
                assert(skill_names(skills@.take(i + 1)) =~= skill_names(skills@.take(i as int)).push(skills@[i as int].name@));
            }
        }
        assert(skills@.take(skills.len() as int) == skills@);
        let joined = crate::hashline::join_strings(&names, ", ");
        push_str(&mut m, joined.as_str());
    }
    m
}

/// What the model sees of a loaded skill: its name as heading, its file, and
/// where it came from.
pub open spec fn skill_document_text(skill: SkillEntry, content: Seq<char>) -> Seq<char> {
    "# "@ + skill.name@ + "\n\n"@ + content + "\n\n---\nSource: "@ + skill.path@
}

pub fn skill_document(skill: &SkillEntry, content: &str) -> (d: String)
    ensures
        d@ == skill_document_text(*skill, content@),
{
    let mut d = String::new();
    push_str(&mut d, "# ");
    push_str(&mut d, skill.name.as_str());
    push_str(&mut d, "\n\n");
    push_str(&mut d, content);
    push_str(&mut d, "\n\n---\nSource: ");
    push_str(&mut d, skill.path.as_str());
    d
}

/// The lines listing skills in the tool's description.
pub open spec fn listing_text(skills: Seq<SkillEntry>) -> Seq<char>
    decreases skills.len(),
{
    if skills.len() == 0 {
        Seq::<char>::empty()
    } else {
        listing_text(skills.drop_last()) + "- "@ + skills.last().name@ + ": "@ + skills.last().description@ + "\n"@
    }
}

/// The tool's description: what it does, and the skills found (or why none
/// could be listed).
pub open spec fn tool_description_text(skills_dir: Seq<char>, discovered: Result<Seq<SkillEntry>, Seq<char>>) -> Seq<char> {
    "Load a local skill by name from .agents/skills."@ + match discovered {
        Ok(skills) => if skills.len() == 0 {
            " No skills found in "@ + skills_dir + "."@
        } else {
            " Available skills:\n"@ + listing_text(skills)
        },
        Err(e) => " Failed to index skills in "@ + skills_dir + ": "@ + e,
    }
}

pub fn build_tool_description(skills_dir: &str, discovered: &Result<Vec<SkillEntry>, String>) -> (d: String)
    ensures
        d@ == tool_description_text(skills_dir@, match discovered {
            Ok(v) => Ok(v@),
            Err(e) => Err(e@),
        }),
{
    let mut d = String::new();
    push_str(&mut d, "Load a local skill by name from .agents/skills.");
    match discovered {
        Ok(skills) => {
            if skills.len() == 0 {
                push_str(&mut d, " No skills found in ");
                push_str(&mut d, skills_dir);
                push_str(&mut d, ".");
            } else {
                push_str(&mut d, " Available skills:\n");
                let ghost head = d@;
                for i in 0..skills.len()
                    invariant
                        d@ == head + listing_text(skills@.take(i as int)),
                {
                    push_str(&mut d, "- ");
                    push_str(&mut d, skills[i].name.as_str());
                    push_str(&mut d, ": ");
                    push_str(&mut d, skills[i].description.as_str());
                    push_str(&mut d, "\n");
                    assert(skills@.take(i + 1).drop_last() == skills@.take(i as int));
                }
                assert(skills@.take(skills.len() as int) == skills@);
            }
        },
        Err(e) => {
            push_str(&mut d, " Failed to index skills in ");
            push_str(&mut d, skills_dir);
            push_str(&mut d, ": ");
            push_str(&mut d, e.as_str());
        },
    }
    d
}

/// The skill tool: its skills directory and the description listing its skills.
#[derive(Clone)]
pub struct SkillTool {
    pub skills_dir: String,
    pub description: String,
}

impl SkillTool {
    /// The tool for `skills_dir`, described from what discovering its skills gave.
    pub fn new(skills_dir: String, discovered: Result<Vec<SkillEntry>, String>) -> (t: SkillTool)
        ensures
            t.skills_dir == skills_dir,
            t.description@ == tool_description_text(skills_dir@, match discovered {
                Ok(v) => Ok(v@),
                Err(e) => Err(e@),
            }),
    {
        let description = build_tool_description(skills_dir.as_str(), &discovered);
        SkillTool { skills_dir, description }
    }

    pub fn name(&self) -> (n: &'static str)
        ensures
            n@ == "skill"@,
    {
        "skill"
    }

    pub fn description(&self) -> (d: &str)
        ensures
            d@ == self.description@,
    {
        self.description.as_str()
    }

    /// Which skill a call loads, among the skills found: an empty name (after
    /// trimming) is refused, an unknown one is refused with the list of names.
    pub fn pick_skill(&self, skills: &Vec<SkillEntry>, input: &SkillInput) -> (r: Result<usize, String>)
        ensures
            trim(input.name@).len() == 0 ==> (r matches Err(m) && m@ == "skill name cannot be empty"@),
            trim(input.name@).len() > 0 ==> match chosen_skill(skills@, trim(input.name@)) {
                Some(i) => r == Ok::<usize, String>(i as usize),
                None => r matches Err(m) && m@ == unknown_skill_text(skills@, trim(input.name@)),
            },
    {
        let name = trim_str(input.name.as_str());
        if name.as_str().is_empty() {
            return Err("skill name cannot be empty".to_owned());
        }
        match select_skill(skills, name.as_str()) {
            Some(i) => Ok(i),
            None => Err(unknown_skill_message(skills, name.as_str())),
        }
    }

    /// Title of an invocation: `Load skill {name}` (the name trimmed).
    pub fn render_input(&self, input: &SkillInput) -> (d: ToolCallDisplay)
        ensures
            d.title@ == "Load skill "@ + trim(input.name@),
            d.body is None,
    {
        let mut t = String::new();
        push_str(&mut t, "Load skill ");
        let name = trim_str(input.name.as_str());
        push_str(&mut t, name.as_str());
        ToolCallDisplay { title: t, body: None }
    }

    /// A loaded skill is shown as markdown.
    pub fn render_output(&self, _input: &SkillInput, output: &String) -> (d: ToolResultDisplay)
        ensures
            d.title@ == "Loaded skill"@,
            d.body matches Some(DisplayBody::Code { language, content }) && content@ == output@
                && (language matches Some(l) && l@ == "markdown"@),
    {
        ToolResultDisplay {
            title: "Loaded skill".to_owned(),
            body: Some(DisplayBody::Code { language: Some("markdown".to_owned()), content: output.clone() }),
        }
    }

    /// The text the model sees of a result: the document itself.
    pub fn render_llm_output(&self, _input: &SkillInput, output: &String) -> (r: String)
        ensures
            r@ == output@,
    {
        output.clone()
    }
}

} // verus!
