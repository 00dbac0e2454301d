//! Sizes and positions in the terminal view: where the cursor sits in the
//! wrapped input, how tall the input and typeahead are, which lines of the
//! conversation are in view, and the typeahead's header and status.

use vstd::prelude::*;

use crate::text::{char_utf8_width, lemma_utf8_len_push, push_str, to_chars, utf8_len, utf8_width};
use crate::typeahead::TypeaheadItem;
use crate::typeahead_state::{active_count, before_cursor, cursor_on_boundary, cursor_prefix, ActiveTypeahead};

verus! {

// ---------------------------------------------------------------------------
// The cursor in the input
// ---------------------------------------------------------------------------

/// Row and column after writing `s` into rows of `w` columns: a line break or
/// a full row starts a new row.
pub open spec fn cursor_rc(s: Seq<char>, w: nat) -> (nat, nat)
    decreases s.len(),
{
    if s.len() == 0 {
        (0, 0)
    } else {
        let (r, c) = cursor_rc(s.drop_last(), w);
        if s.last() == '\n' {
            (r + 1, 0)
        } else if c + 1 >= w {
            (r + 1, 0)
        } else {
            (r, (c + 1) as nat)
        }
    }
}

proof fn lemma_cursor_rc_bound(s: Seq<char>, w: nat)
    ensures
        cursor_rc(s, w).0 <= s.len(),
        cursor_rc(s, w).1 <= s.len(),
    decreases s.len(),
{
    if s.len() > 0 {
        lemma_cursor_rc_bound(s.drop_last(), w);
    }
}

/// Where the cursor (a byte offset) sits in the input wrapped to `width`
/// columns (at least one): its row and column.
pub fn cursor_position(input: &str, byte_pos: usize, width: usize) -> (rc: (usize, usize))
    requires
        cursor_on_boundary(input, byte_pos),
    ensures
        rc.0 == cursor_rc(before_cursor(input, byte_pos), if width == 0 { 1 } else { width as nat }).0,
        rc.1 == cursor_rc(before_cursor(input, byte_pos), if width == 0 { 1 } else { width as nat }).1,
{
    let width = if width == 0 {
        1
    } else {
        width
    };
    let prefix = cursor_prefix(input, byte_pos);
    let cs = to_chars(prefix);
    let mut row: usize = 0;
    let mut col: usize = 0;
    assert(cs@.take(0) == Seq::<char>::empty());
    for i in 0..cs.len()
        invariant
            width > 0,
            (row as nat, col as nat) == cursor_rc(cs@.take(i as int), width as nat),
            row <= i,
            col <= i,
    {
        proof {
            assert(cs@.take(i + 1).drop_last() == cs@.take(i as int));
            lemma_cursor_rc_bound(cs@.take(i as int), width as nat);
        }
        if cs[i] == '\n' {
            row = row + 1;
            col = 0;
        } else {
            col = col + 1;
            if col >= width {
                row = row + 1;
                col = 0;
            }
        }
    }
    assert(cs@.take(cs.len() as int) == cs@);
    (row, col)
}

// ---------------------------------------------------------------------------
// Heights
// ---------------------------------------------------------------------------

/// The pieces of `s` between `\n`s (as `str::split('\n')` gives them).
pub open spec fn split_pieces(s: Seq<char>) -> Seq<Seq<char>>
    decreases s.len(),
{
    match crate::text::find_char(s, '\n') {
        Some(i) => {
            proof {
                crate::text::lemma_find_char_bound(s, '\n');
            }
            seq![s.take(i as int)] + split_pieces(s.skip(i as int + 1))
        },
        None => seq![s],
    }
}

/// Rows a piece of `len` bytes takes in rows of `inner` columns (at least one).
pub open spec fn piece_rows(len: nat, inner: nat) -> nat {
    let l = if len == 0 {
        1
    } else {
        len
    };
    ((l + inner - 1) / (inner as int)) as nat
}

pub open spec fn rows_total(pieces: Seq<Seq<char>>, inner: nat) -> nat
    decreases pieces.len(),
{
    if pieces.len() == 0 {
        0
    } else {
        rows_total(pieces.drop_last(), inner) + piece_rows(utf8_len(pieces.last()), inner)
    }
}

pub open spec fn clamp_u16(v: int, lo: int, hi: int) -> int {
    if v < lo {
        lo
    } else if v > hi {
        hi
    } else {
        v
    }
}

/// The width left for text in the input box, at least one column.
pub open spec fn inner_width(width: u16) -> nat {
    if width > 2 {
        (width - 2) as nat
    } else {
        1
    }
}

/// The input box's height: one row per started row of text (each line, as
/// split at `\n`, taking its byte length over the inner width), between 2 and 8.
pub open spec fn input_height(input: Seq<char>, width: u16) -> int {
    let total = if input.len() == 0 {
        1
    } else {
        let t = rows_total(split_pieces(input), inner_width(width));
        if t == 0 {
            1
        } else {
            t as int
        }
    };
    clamp_u16(total, 2, 8)
}

fn rows_of(len: usize, inner: usize) -> (r: usize)
    requires
        inner > 0,
    ensures
        r == piece_rows(len as nat, inner as nat),
{
    let l = if len == 0 {
        1
    } else {
        len
    };
    let q = l / inner;
    if l % inner == 0 {
        proof {
            assert(((l + inner - 1) / (inner as int)) == q) by (nonlinear_arith)
                requires
                    l % inner == 0,
                    q == l / inner,
                    inner > 0,
                    l >= 1,
            {
                vstd::arithmetic::div_mod::lemma_fundamental_div_mod(l as int, inner as int);
                vstd::arithmetic::div_mod::lemma_fundamental_div_mod((l + inner - 1) as int, inner as int);
            }
        }
        q
    } else {
        assert(inner > 1);
        assert(q < usize::MAX) by (nonlinear_arith)
            requires
                inner >= 2,
                q == l / inner,
                l <= usize::MAX,
        ;
        proof {
            assert(((l + inner - 1) / (inner as int)) == q + 1) by (nonlinear_arith)
                requires
                    l % inner != 0,
                    q == l / inner,
                    inner > 0,
                    l >= 1,
            {
                vstd::arithmetic::div_mod::lemma_fundamental_div_mod(l as int, inner as int);
                vstd::arithmetic::div_mod::lemma_fundamental_div_mod((l + inner - 1) as int, inner as int);
            }
        }
        q + 1
    }
}

/// How tall the input box is for `input` at `width` columns.
pub fn calculate_input_height(input: &str, width: u16) -> (h: u16)
    requires
        input@.len() > 0 ==> rows_total(split_pieces(input@), inner_width(width)) <= u16::MAX,
    ensures
        h == input_height(input@, width),
{
    let inner: usize = if width > 2 {
        (width - 2) as usize
    } else {
        1
    };
    let cs = to_chars(input);
    if cs.len() == 0 {
        return 2;
    }
    let mut total: usize = 0;
    let mut piece_len: usize = 0;
    let mut start: usize = 0;
    let ghost mut done: Seq<Seq<char>> = Seq::empty();
    let ghost inn = inner as nat;
    proof {
        assert(cs@.skip(0) == cs@);
        assert(done + split_pieces(cs@.skip(0)) =~= split_pieces(input@));
        lemma_rows_total_append(done, split_pieces(cs@.skip(0)), inn);
    }
    let nbytes = input.as_bytes().len();
    for i in 0..cs.len()
        invariant
            inner == inner_width(width),
            inn == inner as nat,
            inner > 0,
            cs@ == input@,
            nbytes == utf8_len(input@),
            start <= i <= cs.len(),
            piece_len == utf8_len(cs@.subrange(start as int, i as int)),
            split_pieces(input@) == done + split_pieces(cs@.skip(start as int)),
            forall|k: int| start <= k < i ==> cs@[k] != '\n',
            total == rows_total(done, inn),
            rows_total(done, inn) + rows_total(split_pieces(cs@.skip(start as int)), inn) <= u16::MAX,
    {
        let c = cs[i];
        proof {
            crate::text::lemma_utf8_len_sub(cs@, start as int, i + 1);
            assert(cs@.subrange(start as int, i + 1) == cs@.subrange(start as int, i as int).push(c));
            lemma_utf8_len_push(cs@.subrange(start as int, i as int), c);
        }
        if c == '\n' {
            let ghost rest = cs@.skip(start as int);
            proof {
                crate::text::lemma_find_char(rest, '\n', i - start);
                assert(rest.take(i - start) == cs@.subrange(start as int, i as int));
                assert(rest.skip(i - start + 1) == cs@.skip(i + 1));
                let piece = cs@.subrange(start as int, i as int);
                assert(split_pieces(rest) == seq![piece] + split_pieces(cs@.skip(i + 1)));
                lemma_rows_total_append(seq![piece], split_pieces(cs@.skip(i + 1)), inn);
                assert(seq![piece].drop_last() == Seq::<Seq<char>>::empty());
                assert(seq![piece].last() == piece);
                assert(rows_total(Seq::<Seq<char>>::empty(), inn) == 0);
                assert(rows_total(seq![piece], inn) == rows_total(seq![piece].drop_last(), inn) + piece_rows(utf8_len(seq![piece].last()), inn));
                assert(rows_total(seq![piece], inn) == piece_rows(utf8_len(piece), inn));
                lemma_rows_total_append(done, seq![piece], inn);
            }
            let r = rows_of(piece_len, inner);
            proof {
                let piece = cs@.subrange(start as int, i as int);
                done = done + seq![piece];
                assert(split_pieces(input@) =~= done + split_pieces(cs@.skip(i + 1)));
            }
            total = total + r;
            piece_len = 0;
            start = i + 1;
            assert(cs@.subrange(start as int, start as int) == Seq::<char>::empty());
        } else {
            let w = char_utf8_width(c);
            piece_len = piece_len + w;
        }
    }
    let ghost rest = cs@.skip(start as int);
    proof {
        crate::text::lemma_find_char(rest, '\n', rest.len() as int);
        assert(rest == cs@.subrange(start as int, cs.len() as int));
        assert(split_pieces(rest) == seq![rest]);
        assert(seq![rest].drop_last() == Seq::<Seq<char>>::empty());
        assert(rows_total(Seq::<Seq<char>>::empty(), inn) == 0);
        assert(rows_total(seq![rest], inn) == rows_total(seq![rest].drop_last(), inn) + piece_rows(utf8_len(seq![rest].last()), inn));
        lemma_rows_total_append(done, seq![rest], inn);
    }
    let last = rows_of(piece_len, inner);
    let t = total + last;
    let t = if t == 0 {
        1
    } else {
        t
    };
    if t < 2 {
        2
    } else if t > 8 {
        8
    } else {
        t as u16
    }
}

proof fn lemma_rows_total_append(a: Seq<Seq<char>>, b: Seq<Seq<char>>, inner: nat)
    ensures
        rows_total(a + b, inner) == rows_total(a, inner) + rows_total(b, inner),
    decreases b.len(),
{
    if b.len() == 0 {
        assert(a + b == a);
    } else {
        lemma_rows_total_append(a, b.drop_last(), inner);
        assert((a + b).drop_last() == a + b.drop_last());
    }
}

/// How tall the typeahead is: nothing without one, a header and a status line
/// without matches, else a header and up to four matches.
pub fn calculate_typeahead_height(active: Option<&ActiveTypeahead>) -> (h: u16)
    ensures
        h == match active {
            None => 0,
            Some(a) => if active_count(*a) == 0 {
                2
            } else if active_count(*a) < 4 {
                1 + active_count(*a)
            } else {
                5
            },
        },
{
    match active {
        None => 0,
        Some(a) => {
            let count = a.match_count();
            if count == 0 {
                2
            } else if count < 4 {
                (1 + count) as u16
            } else {
                5
            }
        },
    }
}

// ---------------------------------------------------------------------------
// The conversation in view
// ---------------------------------------------------------------------------

/// What of the conversation is in view.
#[derive(Debug, Clone, Copy, PartialEq, Eq)]
pub struct Viewport {
    /// Empty lines put above short content so it sits at the bottom.
    pub padding: usize,
    /// How far the view can scroll up.
    pub max_scroll: u16,
    /// How far it is scrolled up.
    pub scroll_offset: u16,
    /// The first line shown, counting the padding.
    pub first: usize,
    /// One past the last line shown.
    pub end: usize,
}

/// The view of `content` lines in `visible` rows, scrolled up by `offset`
/// rows, when the content could scroll `prev_max` rows before: content
/// shorter than the view sits at the bottom; when scrolled up and the content
/// grew, the offset grows with it so the same lines stay in view; the offset
/// never passes the top.
pub open spec fn viewport_of(content: nat, visible: nat, offset: u16, prev_max: u16) -> Viewport {
    let padding: nat = if content < visible {
        (visible - content) as nat
    } else {
        0
    };
    let total: nat = content + padding;
    let max_scroll = (total - visible) as nat;
    let bumped = if offset > 0 && max_scroll > prev_max {
        offset + (max_scroll - prev_max) % 0x10000
    } else {
        offset as int
    };
    let max16 = max_scroll % 0x10000;
    let off: int = if bumped < max16 {
        bumped
    } else {
        max16 as int
    };
    let first = max_scroll - off;
    Viewport {
        padding: padding as usize,
        max_scroll: max16 as u16,
        scroll_offset: off as u16,
        first: first as usize,
        end: (first + if visible < total {
            visible as int
        } else {
            total as int
        }) as usize,
    }
}

/// The view of the conversation's lines.
pub fn message_viewport(content_height: usize, visible: usize, scroll_offset: u16, prev_max: u16) -> (v: Viewport)
    requires
        content_height + visible <= usize::MAX,
        ({
            let total = if content_height < visible { visible as int } else { content_height as int };
            let max_scroll = total - visible;
            scroll_offset > 0 && max_scroll > prev_max ==> scroll_offset + (max_scroll - prev_max) % 0x10000 <= u16::MAX
        }),
    ensures
        v == viewport_of(content_height as nat, visible as nat, scroll_offset, prev_max),
        v.first <= v.end <= content_height + v.padding,
{
    let padding = if content_height < visible {
        visible - content_height
    } else {
        0
    };
    let total = content_height + padding;
    let max_scroll = total - visible;
    let max16 = (max_scroll % 0x10000) as u16;
    let mut offset = scroll_offset;
    if offset > 0 && max_scroll > prev_max as usize {
        let grow = ((max_scroll - prev_max as usize) % 0x10000) as u16;
        offset = offset + grow;
    }
    if offset > max16 {
        offset = max16;
    }
    let first = max_scroll - offset as usize;
    let shown = if visible < total {
        visible
    } else {
        total
    };
    Viewport { padding, max_scroll: max16, scroll_offset: offset, first, end: first + shown }
}

// ---------------------------------------------------------------------------
// Typeahead text
// ---------------------------------------------------------------------------

/// The typeahead's header: `Suggestions`, or `Suggestions for `{query}``.
pub fn typeahead_header(query: &str) -> (h: String)
    ensures
        h@ == if query@.len() == 0 {
            "Suggestions"@
        } else {
            "Suggestions for `"@ + query@ + "`"@
        },
{
    let mut h = String::new();
    if query.is_empty() {
        push_str(&mut h, "Suggestions");
    } else {
        push_str(&mut h, "Suggestions for `");
        push_str(&mut h, query);
        push_str(&mut h, "`");
    }
    h
}

/// The status line of a typeahead without matches: while its loading note
/// shows, what it waits for (files are indexed first, then searched); while
/// the note is held back, nothing; else that nothing matched.
pub fn typeahead_status(loading: bool, show_loading: bool, leader: char, query_empty: bool) -> (s: &'static str)
    ensures
        s@ == if loading && show_loading {
            if leader == '@' {
                if query_empty {
                    "  indexing files..."@
                } else {
                    "  searching..."@
                }
            } else {
                "  loading..."@
            }
        } else if loading {
            "  "@
        } else {
            "  no matches"@
        },
{
    if loading && show_loading {
        if leader == '@' {
            if query_empty {
                "  indexing files..."
            } else {
                "  searching..."
            }
        } else {
            "  loading..."
        }
    } else if loading {
        "  "
    } else {
        "  no matches"
    }
}

/// A row of the typeahead list: the selection marker (`› ` on the selected
/// row), the item's token, and its description after two spaces when it has
/// one.
pub fn typeahead_row<T: TypeaheadItem>(item: &T, selected: bool) -> (r: (&'static str, String, Option<String>))
    ensures
        r.0@ == (if selected {
            "› "@
        } else {
            "  "@
        }),
        r.1@ == item.token_view(),
        match item.description_view() {
            Some(d) => r.2 matches Some(t) && t@ == "  "@ + d,
            None => r.2 is None,
        },
{
    let marker = if selected {
        "› "
    } else {
        "  "
    };
    let token = item.token_text();
    let description = match item.description() {
        Some(d) => {
            let mut t = String::new();
            push_str(&mut t, "  ");
            push_str(&mut t, d.as_str());
            Some(t)
        },
        None => None,
    };
    (marker, token, description)
}

/// The divider between the ends of a wrapped typeahead list: two spaces,
/// then a rule two columns narrower than the panel (at least one column).
pub fn typeahead_divider(width: u16) -> (d: String)
    ensures
        d@ == "  "@ + Seq::new(
            (if width > 3 {
                width - 2
            } else {
                1
            }) as nat,
            |i: int| '─',
        ),
{
    let n: u16 = if width > 3 {
        width - 2
    } else {
        1
    };
    let mut d = String::new();
    push_str(&mut d, "  ");
    let ghost start = d@;
    let mut k: u16 = 0;
    while k < n
        invariant
            k <= n,
            d@ == start + Seq::new(k as nat, |i: int| '─'),
        decreases n - k,
    {
        crate::text::push_char(&mut d, '─');
        k = k + 1;
        assert(d@ =~= start + Seq::new(k as nat, |i: int| '─'));
    }
    d
}

} // verus!

