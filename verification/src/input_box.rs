//! The terminal input box: editing the text at a byte cursor, scrolling the
//! conversation, and what each key press asks of the application.

use vstd::prelude::*;
use vstd::string::StringSliceAdditionalSpecFns;
use vstd::utf8::*;

use crate::text::{char_utf8_width, lemma_encode_utf8_concat, lemma_utf8_len_push, push_char, to_chars, trim, trim_str, utf8_len, utf8_width};
use crate::typeahead::lemma_char_boundary_at;

verus! {

// ---------------------------------------------------------------------------
// Byte offsets and characters
// ---------------------------------------------------------------------------

/// A byte offset that starts a character of the text (or ends it).
pub open spec fn on_boundary(s: Seq<char>, b: int) -> bool {
    exists|k: int| 0 <= k <= s.len() && #[trigger] utf8_len(s.take(k)) == b
}

/// The character index at byte offset `b`.
pub open spec fn char_index(s: Seq<char>, b: int) -> int {
    choose|k: int| 0 <= k <= s.len() && #[trigger] utf8_len(s.take(k)) == b
}

pub proof fn lemma_prefix_len_monotone(s: Seq<char>, i: int, j: int)
    requires
        0 <= i < j <= s.len(),
    ensures
        utf8_len(s.take(i)) < utf8_len(s.take(j)),
    decreases j - i,
{
    lemma_utf8_len_push(s.take(j - 1), s[j - 1]);
    assert(s.take(j) == s.take(j - 1).push(s[j - 1]));
    char_is_scalar(s[j - 1]);
    assert(utf8_width(s[j - 1]) >= 1);
    if i < j - 1 {
        lemma_prefix_len_monotone(s, i, j - 1);
    }
}

/// Each boundary names one character index.
pub proof fn lemma_char_index(s: Seq<char>, b: int)
    requires
        on_boundary(s, b),
    ensures
        0 <= char_index(s, b) <= s.len(),
        utf8_len(s.take(char_index(s, b))) == b,
        forall|k: int| 0 <= k <= s.len() && #[trigger] utf8_len(s.take(k)) == b ==> k == char_index(s, b),
{
    let k0 = char_index(s, b);
    assert forall|k: int| 0 <= k <= s.len() && #[trigger] utf8_len(s.take(k)) == b implies k == k0 by {
        if k < k0 {
            lemma_prefix_len_monotone(s, k, k0);
        } else if k > k0 {
            lemma_prefix_len_monotone(s, k0, k);
        }
    }
}

/// Whether byte offset `b` starts a character of `s` (or ends it).
pub fn is_boundary(s: &str, b: usize) -> (r: bool)
    ensures
        r == on_boundary(s@, b as int),
{
    let cs = to_chars(s);
    let total = s.as_bytes().len();
    assert(cs@.take(cs@.len() as int) == cs@);
    let mut k: usize = 0;
    let mut acc: usize = 0;
    assert(cs@.take(0) == Seq::<char>::empty());
    while k < cs.len() && acc < b
        invariant
            cs@ == s@,
            total == utf8_len(cs@),
            k <= cs.len(),
            acc == utf8_len(cs@.take(k as int)),
            forall|j: int| 0 <= j < k ==> #[trigger] utf8_len(cs@.take(j)) < b,
        decreases cs.len() - k,
    {
        proof {
            assert(cs@.take(k + 1) == cs@.take(k as int).push(cs@[k as int]));
            lemma_utf8_len_push(cs@.take(k as int), cs@[k as int]);
            if k + 1 < cs.len() {
                lemma_prefix_len_monotone(cs@, k + 1, cs.len() as int);
            } else {
                assert(cs@.take(k + 1) == cs@);
            }
            assert(cs@.take(cs.len() as int) == cs@);
        }
        acc = acc + char_utf8_width(cs[k]);
        k = k + 1;
    }
    proof {
        if acc == b {
            assert(utf8_len(s@.take(k as int)) == b);
        } else {
            assert forall|j: int| 0 <= j <= s@.len() implies #[trigger] utf8_len(s@.take(j)) != b by {
                if j < k {
                } else if j > k {
                    lemma_prefix_len_monotone(cs@, k as int, j);
                }
            }
        }
    }
    acc == b
}

/// The character index at a boundary, computed.
fn index_of_boundary(cs: &Vec<char>, b: usize) -> (k: usize)
    requires
        on_boundary(cs@, b as int),
    ensures
        k == char_index(cs@, b as int),
        k <= cs.len(),
{
    proof {
        lemma_char_index(cs@, b as int);
    }
    let ghost target = char_index(cs@, b as int);
    let mut k: usize = 0;
    let mut acc: usize = 0;
    assert(cs@.take(0) == Seq::<char>::empty());
    while acc < b
        invariant
            k <= target <= cs.len(),
            acc == utf8_len(cs@.take(k as int)),
            utf8_len(cs@.take(target)) == b,
            forall|j: int| 0 <= j <= cs.len() && #[trigger] utf8_len(cs@.take(j)) == b ==> j == target,
        decreases target - k,
    {
        proof {
            if k == target {
                assert(false);
            }
            lemma_prefix_len_monotone(cs@, k as int, target);
            assert(cs@.take(k + 1) == cs@.take(k as int).push(cs@[k as int]));
            lemma_utf8_len_push(cs@.take(k as int), cs@[k as int]);
            if k + 1 < target {
                lemma_prefix_len_monotone(cs@, k + 1, target);
            }
        }
        acc = acc + char_utf8_width(cs[k]);
        k = k + 1;
    }
    proof {
        if k < target {
            lemma_prefix_len_monotone(cs@, k as int, target);
        }
    }
    k
}

fn string_of(cs: &Vec<char>) -> (s: String)
    ensures
        s@ == cs@,
{
    crate::text::string_from_chars(cs.as_slice())
}

// ---------------------------------------------------------------------------
// The box
// ---------------------------------------------------------------------------

/// The text being typed, the cursor (a byte offset into it), and the
/// conversation's scroll position.
pub struct InputBox {
    pub input: String,
    pub cursor_pos: usize,
    pub scroll_offset: u16,
    pub max_scroll: u16,
}

/// A key of the keyboard, as the input box tells them apart.
#[derive(Debug, Clone, Copy, PartialEq, Eq, Structural)]
pub enum Key {
    Char(char),
    Enter,
    Esc,
    Backspace,
    Delete,
    Left,
    Right,
    Home,
    End,
    Up,
    Down,
    PageUp,
    PageDown,
    Other,
}

/// A key with the modifiers that matter: Control, and Shift or Alt.
#[derive(Debug, Clone, Copy, PartialEq, Eq)]
pub struct KeyPress {
    pub key: Key,
    pub ctrl: bool,
    pub shift_or_alt: bool,
}

/// What a key press asks of the application.
#[derive(Debug, Clone, Copy, PartialEq, Eq, Structural)]
pub enum KeyAction {
    /// Leave the application.
    Quit,
    /// Stop the answer being generated (keeping what came so far).
    CancelGeneration,
    /// The resume dialog is open and takes the key.
    DialogKey,
    /// Take the typeahead's selection if one is shown; else, when `submit`,
    /// send the input.
    Enter { submit: bool },
    /// The text or cursor changed: follow the token under the cursor.
    Edited,
    /// Hide the typeahead for the current token.
    DismissTypeahead,
    /// Move the typeahead selection (negative: up).
    MoveTypeahead(i32),
    /// The conversation scrolled, or nothing changed.
    Handled,
    /// The key means nothing here.
    Ignored,
}

/// Whether the key can be handled on this box without editing at a byte
/// offset inside a character (which `String` refuses) or past the text's
/// end: typing needs the cursor on a character boundary, deleting needs one
/// at the character it removes, and moving needs one where the cursor lands.
/// Keys that change nothing ask nothing.
pub open spec fn edit_ok(b: InputBox, press: KeyPress) -> bool {
    let s = b.input@;
    let c = b.cursor_pos as int;
    let can_insert = on_boundary(s, c) && utf8_len(s) + 4 <= usize::MAX;
    match press.key {
        Key::Char(_) => can_insert,
        Key::Enter => press.shift_or_alt ==> can_insert,
        Key::Backspace => c == 0 || (c <= utf8_len(s) && on_boundary(s, c - 1)),
        Key::Delete => c >= utf8_len(s) || on_boundary(s, c),
        Key::Left => c == 0 || on_boundary(s, c - 1),
        Key::Right => c >= utf8_len(s) || on_boundary(s, c + 1),
        _ => true,
    }
}

/// Whether `handle_key` may be given this press: Control-C and any key
/// while the resume dialog is open are always taken; other keys need
/// `edit_ok`.
pub open spec fn key_ok(b: InputBox, press: KeyPress, dialog_open: bool) -> bool {
    (press.key == Key::Char('c') && press.ctrl) || dialog_open || edit_ok(b, press)
}

/// The text with `c` inserted at character index `k`.
pub open spec fn inserted(s: Seq<char>, k: int, c: char) -> Seq<char> {
    s.take(k) + seq![c] + s.skip(k)
}

/// The text without the character at index `k`.
pub open spec fn removed(s: Seq<char>, k: int) -> Seq<char> {
    s.take(k) + s.skip(k + 1)
}

impl InputBox {
    /// An empty box, not scrolled.
    pub fn new() -> (b: InputBox)
        ensures
            b.input@.len() == 0,
            b.cursor_pos == 0,
            b.scroll_offset == 0,
            b.max_scroll == 0,
    {
        InputBox { input: String::new(), cursor_pos: 0, scroll_offset: 0, max_scroll: 0 }
    }

    /// Inserts `c` at the cursor and moves the cursor past it.
    pub fn insert_char(&mut self, c: char)
        requires
            on_boundary(old(self).input@, old(self).cursor_pos as int),
            utf8_len(old(self).input@) + 4 <= usize::MAX,
        ensures
            final(self).input@ == inserted(old(self).input@, char_index(old(self).input@, old(self).cursor_pos as int), c),
            final(self).cursor_pos == old(self).cursor_pos + utf8_width(c),
            final(self).scroll_offset == old(self).scroll_offset,
            final(self).max_scroll == old(self).max_scroll,
    {
        let cs = to_chars(self.input.as_str());
        let k = index_of_boundary(&cs, self.cursor_pos);
        let mut out: Vec<char> = Vec::new();
        for i in 0..k
            invariant
                k <= cs.len(),
                out@ == cs@.take(i as int),
        {
            out.push(cs[i]);
            assert(out@ == cs@.take(i + 1));
        }
        out.push(c);
        for i in k..cs.len()
            invariant
                k <= cs.len(),
                out@ == cs@.take(k as int) + seq![c] + cs@.subrange(k as int, i as int),
        {
            out.push(cs[i]);
            assert(out@ =~= cs@.take(k as int) + seq![c] + cs@.subrange(k as int, i + 1));
        }
        assert(cs@.subrange(k as int, cs.len() as int) == cs@.skip(k as int));
        self.input = string_of(&out);
        proof {
            lemma_char_index(cs@, old(self).cursor_pos as int);
            lemma_char_boundary_at(cs@, k as int);
            char_is_scalar(c);
        }
        self.cursor_pos = self.cursor_pos + char_utf8_width(c);
    }

    /// Removes the character that starts at byte `at`.
    fn remove_at(&mut self, at: usize)
        requires
            on_boundary(old(self).input@, at as int),
            at < utf8_len(old(self).input@),
        ensures
            final(self).input@ == removed(old(self).input@, char_index(old(self).input@, at as int)),
            char_index(old(self).input@, at as int) < old(self).input@.len(),
            final(self).cursor_pos == old(self).cursor_pos,
            final(self).scroll_offset == old(self).scroll_offset,
            final(self).max_scroll == old(self).max_scroll,
    {
        let cs = to_chars(self.input.as_str());
        let k = index_of_boundary(&cs, at);
        proof {
            lemma_char_index(cs@, at as int);
            assert(cs@.take(cs.len() as int) == cs@);
            if k == cs.len() {
                assert(false);
            }
        }
        let mut out: Vec<char> = Vec::new();
        for i in 0..cs.len()
            invariant
                k < cs.len(),
                out@ == if i <= k { cs@.take(i as int) } else { cs@.take(k as int) + cs@.subrange(k + 1, i as int) },
        {
            if i != k {
                out.push(cs[i]);
            }
            proof {
                if i < k {
                    assert(out@ == cs@.take(i + 1));
                } else if i == k {
                    assert(cs@.subrange(k + 1, i + 1) == Seq::<char>::empty());
                    assert(out@ =~= cs@.take(k as int) + cs@.subrange(k + 1, i + 1));
                } else {
                    assert(out@ =~= cs@.take(k as int) + cs@.subrange(k + 1, i + 1));
                }
            }
        }
        assert(cs@.subrange(k + 1, cs.len() as int) == cs@.skip(k + 1));
        self.input = string_of(&out);
    }
}

/// A terminal event, as far as gathering wheel movement goes.
#[derive(Debug, Clone, Copy, PartialEq, Eq, Structural)]
pub enum TerminalEventKind {
    /// A key was pressed or repeats.
    KeyPress,
    /// A key was released.
    KeyRelease,
    WheelUp,
    WheelDown,
    /// Another mouse event.
    OtherMouse,
    Resize,
    Other,
}

/// What to do with a terminal event: the wheel movement gathered so far to
/// apply first (none when 0), the movement still gathered after it, and
/// whether the event goes on to the key or mouse handler.
#[derive(Debug, Clone, Copy, PartialEq, Eq, Structural)]
pub struct EventStep {
    pub apply: i32,
    pub pending: i32,
    pub forward: bool,
}

/// Gathers wheel movement between other events: each wheel step moves three
/// lines (saturating); any other event first applies what was gathered, and
/// key presses and other mouse events then go on to their handlers.
pub fn coalesce_terminal_event(kind: TerminalEventKind, pending: i32) -> (s: EventStep)
    ensures
        match kind {
            TerminalEventKind::WheelUp => s.apply == 0 && !s.forward && s.pending == (if pending > i32::MAX - 3 {
                i32::MAX as int
            } else {
                pending + 3
            }),
            TerminalEventKind::WheelDown => s.apply == 0 && !s.forward && s.pending == (if pending < i32::MIN + 3 {
                i32::MIN as int
            } else {
                pending - 3
            }),
            TerminalEventKind::KeyRelease => s.apply == 0 && !s.forward && s.pending == pending,
            TerminalEventKind::KeyPress | TerminalEventKind::OtherMouse => s.apply == pending && s.pending == 0 && s.forward,
            TerminalEventKind::Resize | TerminalEventKind::Other => s.apply == pending && s.pending == 0 && !s.forward,
        },
{
    match kind {
        TerminalEventKind::WheelUp => {
            let next = if pending > i32::MAX - 3 {
                i32::MAX
            } else {
                pending + 3
            };
            EventStep { apply: 0, pending: next, forward: false }
        },
        TerminalEventKind::WheelDown => {
            let next = if pending < i32::MIN + 3 {
                i32::MIN
            } else {
                pending - 3
            };
            EventStep { apply: 0, pending: next, forward: false }
        },
        TerminalEventKind::KeyRelease => EventStep { apply: 0, pending, forward: false },
        TerminalEventKind::KeyPress | TerminalEventKind::OtherMouse => EventStep { apply: pending, pending: 0, forward: true },
        TerminalEventKind::Resize | TerminalEventKind::Other => EventStep { apply: pending, pending: 0, forward: false },
    }
}

/// How the mouse wheel moved.
#[derive(Debug, Clone, Copy, PartialEq, Eq, Structural)]
pub enum MouseScroll {
    Up,
    Down,
    Other,
}

/// Scrolls the conversation by three lines for a wheel movement (up toward
/// older lines, at most to `max_scroll`); nothing while the resume dialog
/// is open.
pub fn handle_mouse(b: &mut InputBox, scroll: MouseScroll, dialog_open: bool)
    ensures
        final(b).input@ == old(b).input@,
        final(b).cursor_pos == old(b).cursor_pos,
        final(b).max_scroll == old(b).max_scroll,
        final(b).scroll_offset == (if dialog_open {
            old(b).scroll_offset as int
        } else {
            match scroll {
                MouseScroll::Up => crate::read::min(
                    if old(b).scroll_offset + 3 > u16::MAX {
                        u16::MAX as int
                    } else {
                        old(b).scroll_offset + 3
                    },
                    old(b).max_scroll as int,
                ),
                MouseScroll::Down => if old(b).scroll_offset >= 3 {
                    old(b).scroll_offset - 3
                } else {
                    0
                },
                MouseScroll::Other => old(b).scroll_offset as int,
            }
        }),
{
    if dialog_open {
        return;
    }
    match scroll {
        MouseScroll::Up => {
            let up = b.scroll_offset.saturating_add(3);
            b.scroll_offset = if up < b.max_scroll {
                up
            } else {
                b.max_scroll
            };
        },
        MouseScroll::Down => {
            b.scroll_offset = b.scroll_offset.saturating_sub(3);
        },
        MouseScroll::Other => {},
    }
}

/// The text with the characters from index `i` to `j` replaced by `r`.
pub open spec fn replaced(s: Seq<char>, i: int, j: int, r: Seq<char>) -> Seq<char> {
    s.take(i) + r + s.skip(j)
}

impl InputBox {
    /// Replaces the token between two byte offsets with the mention's text
    /// and a space, and puts the cursor after them.
    pub fn apply_mention(&mut self, mention_text: &str, token_start: usize, token_end: usize)
        requires
            on_boundary(old(self).input@, token_start as int),
            on_boundary(old(self).input@, token_end as int),
            token_start <= token_end,
            utf8_len(old(self).input@) + utf8_len(mention_text@) + 1 <= usize::MAX,
        ensures
            final(self).input@ == replaced(
                old(self).input@,
                char_index(old(self).input@, token_start as int),
                char_index(old(self).input@, token_end as int),
                mention_text@ + seq![' '],
            ),
            final(self).cursor_pos == token_start + utf8_len(mention_text@) + 1,
            final(self).scroll_offset == old(self).scroll_offset,
            final(self).max_scroll == old(self).max_scroll,
    {
        let cs = to_chars(self.input.as_str());
        let ms = to_chars(mention_text);
        let ks = index_of_boundary(&cs, token_start);
        let ke = index_of_boundary(&cs, token_end);
        proof {
            lemma_char_index(cs@, token_start as int);
            lemma_char_index(cs@, token_end as int);
            if ke < ks {
                lemma_prefix_len_monotone(cs@, ke as int, ks as int);
            }
        }
        let mut out: Vec<char> = Vec::new();
        for i in 0..ks
            invariant
                ks <= cs.len(),
                out@ == cs@.take(i as int),
        {
            out.push(cs[i]);
            assert(out@ == cs@.take(i + 1));
        }
        for i in 0..ms.len()
            invariant
                out@ == cs@.take(ks as int) + ms@.take(i as int),
        {
            out.push(ms[i]);
            assert(out@ =~= cs@.take(ks as int) + ms@.take(i + 1));
        }
        out.push(' ');
        assert(ms@.take(ms.len() as int) == ms@);
        let ghost head = out@;
        assert(head == cs@.take(ks as int) + (ms@ + seq![' ']));
        for i in ke..cs.len()
            invariant
                ks <= ke <= cs.len(),
                out@ == head + cs@.subrange(ke as int, i as int),
        {
            out.push(cs[i]);
            assert(out@ =~= head + cs@.subrange(ke as int, i + 1));
        }
        assert(cs@.subrange(ke as int, cs.len() as int) == cs@.skip(ke as int));
        self.input = string_of(&out);
        proof {
            lemma_char_boundary_at(cs@, ks as int);
            lemma_utf8_len_push(ms@, ' ');
            lemma_encode_utf8_concat(cs@.take(ks as int), ms@ + seq![' ']);
            char_is_scalar(' ');
            assert(utf8_width(' ') == 1);
        }
        self.cursor_pos = token_start + ms_len(mention_text) + 1;
    }

    /// Empties the box and forgets the scroll position.
    pub fn clear(&mut self)
        ensures
            final(self).input@.len() == 0,
            final(self).cursor_pos == 0,
            final(self).scroll_offset == 0,
            final(self).max_scroll == 0,
    {
        self.input = String::new();
        self.cursor_pos = 0;
        self.scroll_offset = 0;
        self.max_scroll = 0;
    }
}

fn ms_len(s: &str) -> (n: usize)
    ensures
        n == utf8_len(s@),
{
    s.as_bytes().len()
}

/// The input's byte length.
fn byte_len(s: &String) -> (n: usize)
    ensures
        n == utf8_len(s@),
{
    s.as_str().as_bytes().len()
}

/// What a key press does to the box (`old_b` to `new_b`) and what it asks
/// of the application (`a`): see `handle_key`.
pub open spec fn key_handled(
    old_b: InputBox,
    press: KeyPress,
    generating: bool,
    dialog_open: bool,
    new_b: InputBox,
    a: KeyAction,
) -> bool {
    ({
        let s = old_b.input@;
        let c = old_b.cursor_pos as int;
        let unchanged = new_b.input@ == s && new_b.cursor_pos == old_b.cursor_pos;
        let scroll_same = new_b.scroll_offset == old_b.scroll_offset;
        &&& new_b.max_scroll == old_b.max_scroll
        &&& if press.key == Key::Char('c') && press.ctrl {
            unchanged && scroll_same && a == (if generating { KeyAction::CancelGeneration } else { KeyAction::Quit })
        } else if dialog_open {
            unchanged && scroll_same && a == KeyAction::DialogKey
        } else {
            match press.key {
                Key::Enter => if !press.shift_or_alt {
                    unchanged && scroll_same && a == (KeyAction::Enter { submit: !generating && trim(s).len() > 0 })
                } else {
                    scroll_same && a == KeyAction::Edited && new_b.input@ == inserted(s, char_index(s, c), '\n')
                        && new_b.cursor_pos == c + 1
                },
                Key::Esc => unchanged && scroll_same && a == (if generating {
                    KeyAction::CancelGeneration
                } else {
                    KeyAction::DismissTypeahead
                }),
                Key::Char(ch) => scroll_same && a == KeyAction::Edited && new_b.input@ == inserted(s, char_index(s, c), ch)
                    && new_b.cursor_pos == c + utf8_width(ch),
                Key::Backspace => scroll_same && if c > 0 {
                    a == KeyAction::Edited && new_b.cursor_pos == c - 1 && new_b.input@ == removed(s, char_index(s, c - 1))
                } else {
                    unchanged && a == KeyAction::Handled
                },
                Key::Delete => scroll_same && if c < utf8_len(s) {
                    a == KeyAction::Edited && new_b.cursor_pos == c && new_b.input@ == removed(s, char_index(s, c))
                } else {
                    unchanged && a == KeyAction::Handled
                },
                Key::Left => scroll_same && new_b.input@ == s && if c > 0 {
                    a == KeyAction::Edited && new_b.cursor_pos == c - 1
                } else {
                    unchanged && a == KeyAction::Handled
                },
                Key::Right => scroll_same && new_b.input@ == s && if c < utf8_len(s) {
                    a == KeyAction::Edited && new_b.cursor_pos == c + 1
                } else {
                    unchanged && a == KeyAction::Handled
                },
                Key::Home => scroll_same && new_b.input@ == s && new_b.cursor_pos == 0 && a == KeyAction::Edited,
                Key::End => scroll_same && new_b.input@ == s && new_b.cursor_pos == utf8_len(s) && a == KeyAction::Edited,
                Key::Up => unchanged && scroll_same && a == KeyAction::MoveTypeahead(-1i32),
                Key::Down => unchanged && scroll_same && a == KeyAction::MoveTypeahead(1i32),
                Key::PageUp => unchanged && a == KeyAction::Handled && new_b.scroll_offset == crate::read::min(if old_b.scroll_offset + 10 > u16::MAX {
                    u16::MAX as int
                } else {
                    old_b.scroll_offset + 10
                }, old_b.max_scroll as int),
                Key::PageDown => unchanged && a == KeyAction::Handled && new_b.scroll_offset == (if old_b.scroll_offset >= 10 {
                    old_b.scroll_offset - 10
                } else {
                    0
                }),
                Key::Other => unchanged && scroll_same && a == KeyAction::Ignored,
            }
        }
    })
}

/// Handles a key press: edits the input or scrolls, and says what else the
/// application has to do. `generating` tells whether an answer is being
/// generated, `dialog_open` whether the resume dialog is open.
pub fn handle_key(b: &mut InputBox, press: KeyPress, generating: bool, dialog_open: bool) -> (a: KeyAction)
    requires
        key_ok(*old(b), press, dialog_open),
    ensures
        key_handled(*old(b), press, generating, dialog_open, *final(b), a),
{
    if press.key == Key::Char('c') && press.ctrl {
        return if generating {
            KeyAction::CancelGeneration
        } else {
            KeyAction::Quit
        };
    }
    if dialog_open {
        return KeyAction::DialogKey;
    }
    match press.key {
        Key::Enter => {
            if !press.shift_or_alt {
                let t = trim_str(b.input.as_str());
                KeyAction::Enter { submit: !generating && !t.as_str().is_empty() }
            } else {
                b.insert_char('\n');
                proof {
                    reveal_strlit("\n");
                }
                KeyAction::Edited
            }
        },
        Key::Esc => {
            if generating {
                KeyAction::CancelGeneration
            } else {
                KeyAction::DismissTypeahead
            }
        },
        Key::Char(ch) => {
            b.insert_char(ch);
            KeyAction::Edited
        },
        Key::Backspace => {
            if b.cursor_pos > 0 {
                b.cursor_pos = b.cursor_pos - 1;
                b.remove_at(b.cursor_pos);
                KeyAction::Edited
            } else {
                KeyAction::Handled
            }
        },
        Key::Delete => {
            if b.cursor_pos < byte_len(&b.input) {
                b.remove_at(b.cursor_pos);
                KeyAction::Edited
            } else {
                KeyAction::Handled
            }
        },
        Key::Left => {
            if b.cursor_pos > 0 {
                b.cursor_pos = b.cursor_pos - 1;
                KeyAction::Edited
            } else {
                KeyAction::Handled
            }
        },
        Key::Right => {
            if b.cursor_pos < byte_len(&b.input) {
                b.cursor_pos = b.cursor_pos + 1;
                KeyAction::Edited
            } else {
                KeyAction::Handled
            }
        },
        Key::Home => {
            b.cursor_pos = 0;
            KeyAction::Edited
        },
        Key::End => {
            b.cursor_pos = byte_len(&b.input);
            KeyAction::Edited
        },
        Key::Up => KeyAction::MoveTypeahead(-1),
        Key::Down => KeyAction::MoveTypeahead(1),
        Key::PageUp => {
            let up = b.scroll_offset.saturating_add(10);
            b.scroll_offset = if up < b.max_scroll {
                up
            } else {
                b.max_scroll
            };
            KeyAction::Handled
        },
        Key::PageDown => {
            b.scroll_offset = b.scroll_offset.saturating_sub(10);
            KeyAction::Handled
        },
        Key::Other => KeyAction::Ignored,
    }
}

/// Removing the character just inserted gives back the text.
pub proof fn law_remove_undoes_insert(s: Seq<char>, k: int, c: char)
    requires
        0 <= k <= s.len(),
    ensures
        removed(inserted(s, k, c), k) == s,
{
    let t = inserted(s, k, c);
    assert(t.take(k) == s.take(k));
    assert(t.skip(k + 1) == s.skip(k));
    assert(s.take(k) + s.skip(k) == s);
}

/// Typing a character and then pressing Backspace leaves the text and the
/// cursor as they were (for a one-byte character).
pub proof fn law_backspace_undoes_typing(s: Seq<char>, cursor: int, c: char)
    requires
        on_boundary(s, cursor),
        utf8_width(c) == 1,
    ensures
        on_boundary(inserted(s, char_index(s, cursor), c), cursor),
        char_index(inserted(s, char_index(s, cursor), c), cursor) == char_index(s, cursor),
        removed(inserted(s, char_index(s, cursor), c), char_index(s, cursor)) == s,
{
    lemma_char_index(s, cursor);
    let k = char_index(s, cursor);
    let t = inserted(s, k, c);
    assert(t.take(k) == s.take(k));
    assert(utf8_len(t.take(k)) == cursor);
    assert(on_boundary(t, cursor));
    lemma_char_index(t, cursor);
    law_remove_undoes_insert(s, k, c);
}

} // verus!
