//! What the input box's typeahead shows: which token triggers it, the window of
//! rows over the matches, the selected row, dismissal, and the delay before a
//! loading note appears.

use vstd::prelude::*;
use vstd::string::StringSliceAdditionalSpecFns;
use vstd::utf8::*;

use crate::commands::Command;
use crate::mentions::Mention;
use crate::typeahead::{extract_query_token, token_begin, TypeaheadMatchSet, TypeaheadQueryResult};
use crate::text::utf8_len;

verus! {

/// Rows of matches shown at once.
pub const VISIBLE_MATCH_LIMIT: usize = 4;

/// Milliseconds a query must stay loading before the loading note shows.
pub const LOADING_TEXT_DELAY_MS: u64 = 100;

// ---------------------------------------------------------------------------
// The window of rows
// ---------------------------------------------------------------------------

/// One row of the typeahead window: a match, or the divider between the last
/// match and the first when the list wraps around.
#[derive(Debug, Clone, Copy, PartialEq, Eq, Structural)]
pub enum TypeaheadWindowItem {
    Value(usize),
    Divider,
}

/// Rows in the cyclic list: the matches, plus a divider when they do not all fit.
pub open spec fn total_rows(count: nat, slots: nat) -> nat {
    if count > slots {
        count + 1
    } else {
        count
    }
}

/// The row `k` places after `start` in the cyclic list of `total` rows.
pub open spec fn wrapped(start: nat, k: nat, total: nat) -> nat {
    if start + k < total {
        start + k
    } else {
        (start + k - total) as nat
    }
}

pub open spec fn window_row(count: nat, start: nat, slots: nat, k: nat) -> TypeaheadWindowItem {
    let total = total_rows(count, slots);
    let row = wrapped(start % total, k, total);
    if count > slots && row == count {
        TypeaheadWindowItem::Divider
    } else {
        TypeaheadWindowItem::Value(row as usize)
    }
}

/// The rows shown for `count` matches in `slots` slots, from `start` on.
pub open spec fn window_items(count: nat, start: nat, slots: nat) -> Seq<TypeaheadWindowItem> {
    if count == 0 || slots == 0 {
        Seq::<TypeaheadWindowItem>::empty()
    } else {
        let total = total_rows(count, slots);
        let visible = if slots < total {
            slots
        } else {
            total
        };
        Seq::new(visible, |k: int| window_row(count, start, slots, k as nat))
    }
}

/// The rows of the window over `match_count` matches with `window_slots`
/// slots, starting at row `window_start` of the cyclic list.
pub fn build_typeahead_window_items(match_count: usize, window_start: usize, window_slots: usize) -> (r: Vec<TypeaheadWindowItem>)
    requires
        match_count < usize::MAX,
    ensures
        r@ == window_items(match_count as nat, window_start as nat, window_slots as nat),
{
    if match_count == 0 || window_slots == 0 {
        return Vec::new();
    }
    let include_divider = match_count > window_slots;
    let total = if include_divider {
        match_count + 1
    } else {
        match_count
    };
    let start = window_start % total;
    let visible = if window_slots < total {
        window_slots
    } else {
        total
    };
    let mut out: Vec<TypeaheadWindowItem> = Vec::new();
    for offset in 0..visible
        invariant
            total == total_rows(match_count as nat, window_slots as nat),
            include_divider == (match_count > window_slots),
            start == window_start % total,
            0 < total,
            visible <= total,
            out@ == Seq::new(
                offset as nat,
                |k: int| window_row(match_count as nat, window_start as nat, window_slots as nat, k as nat),
            ),
    {
        let row = if offset < total - start {
            start + offset
        } else {
            offset - (total - start)
        };
        let item = if include_divider && row == match_count {
            TypeaheadWindowItem::Divider
        } else {
            TypeaheadWindowItem::Value(row)
        };
        out.push(item);
        assert(out@ =~= Seq::new(
            (offset + 1) as nat,
            |k: int| window_row(match_count as nat, window_start as nat, window_slots as nat, k as nat),
        ));
    }
    out
}

/// The window shows each row at most once: its values are distinct matches
/// (below the match count), and the divider appears only when the matches
/// do not all fit in the slots.
pub proof fn law_window_rows_are_distinct_matches(count: nat, start: nat, slots: nat)
    requires
        count < usize::MAX,
    ensures
        forall|k: int|
            0 <= k < window_items(count, start, slots).len() ==> match #[trigger] window_items(count, start, slots)[k] {
                TypeaheadWindowItem::Value(v) => v < count,
                TypeaheadWindowItem::Divider => count > slots,
            },
        forall|a: int, b: int|
            0 <= a < b < window_items(count, start, slots).len() ==> #[trigger] window_items(count, start, slots)[a]
                != #[trigger] window_items(count, start, slots)[b],
{
    if count > 0 && slots > 0 {
        let total = total_rows(count, slots);
        let st = start % total;
        assert(st < total) by (nonlinear_arith)
            requires
                total > 0,
                st == start % total,
        ;
        let items = window_items(count, start, slots);
        assert forall|k: int| 0 <= k < items.len() implies match #[trigger] items[k] {
            TypeaheadWindowItem::Value(v) => v < count,
            TypeaheadWindowItem::Divider => count > slots,
        } by {
            assert(items[k] == window_row(count, start, slots, k as nat));
        }
        assert forall|a: int, b: int| 0 <= a < b < items.len() implies #[trigger] items[a] != #[trigger] items[b] by {
            assert(items[a] == window_row(count, start, slots, a as nat));
            assert(items[b] == window_row(count, start, slots, b as nat));
            let ra = wrapped(st, a as nat, total);
            let rb = wrapped(st, b as nat, total);
            assert(ra != rb);
            assert(ra < total && rb < total);
        }
    }
}

/// Whether the window of `VISIBLE_MATCH_LIMIT` rows from `start` shows match `selected`.
pub open spec fn shows(count: nat, start: nat, selected: nat) -> bool {
    window_items(count, start, VISIBLE_MATCH_LIMIT as nat).contains(
        TypeaheadWindowItem::Value(selected as usize),
    )
}

/// Whether the window from `window_start` shows the selected match.
pub fn selected_is_visible(count: usize, window_start: usize, selected_index: usize) -> (b: bool)
    requires
        count < usize::MAX,
        selected_index < usize::MAX,
    ensures
        b == shows(count as nat, window_start as nat, selected_index as nat),
{
    let rows = build_typeahead_window_items(count, window_start, VISIBLE_MATCH_LIMIT);
    let target = TypeaheadWindowItem::Value(selected_index);
    for k in 0..rows.len()
        invariant
            rows@ == window_items(count as nat, window_start as nat, VISIBLE_MATCH_LIMIT as nat),
            target == TypeaheadWindowItem::Value(selected_index),
            forall|j: int| 0 <= j < k ==> rows@[j] != target,
    {
        if rows[k] == target {
            assert(rows@[k as int] == target);
            assert(window_items(count as nat, window_start as nat, VISIBLE_MATCH_LIMIT as nat)[k as int]
                == target);
            return true;
        }
    }
    false
}

/// A window starting at a match shows that match.
proof fn lemma_window_at_selected(count: nat, selected: nat)
    requires
        selected < count,
        total_rows(count, VISIBLE_MATCH_LIMIT as nat) > VISIBLE_MATCH_LIMIT,
        count < usize::MAX,
    ensures
        shows(count, selected, selected),
{
    let total = total_rows(count, VISIBLE_MATCH_LIMIT as nat);
    vstd::arithmetic::div_mod::lemma_small_mod(selected, total);
    let items = window_items(count, selected, VISIBLE_MATCH_LIMIT as nat);
    assert(items[0] == TypeaheadWindowItem::Value(selected as usize));
}

/// When every match fits, the window from the first row shows each of them.
proof fn lemma_window_small(count: nat, selected: nat)
    requires
        selected < count <= VISIBLE_MATCH_LIMIT,
    ensures
        shows(count, 0, selected),
{
    vstd::arithmetic::div_mod::lemma_small_mod(0, count);
    let items = window_items(count, 0, VISIBLE_MATCH_LIMIT as nat);
    assert(items[selected as int] == TypeaheadWindowItem::Value(selected as usize));
}

/// Moves `start` one row forward (or backward) in the cyclic list until the
/// window shows `selected`, at most `total` times.
fn scroll_until_visible(count: usize, start: usize, selected: usize, forward: bool) -> (ws: usize)
    requires
        selected < count < usize::MAX,
        total_rows(count as nat, VISIBLE_MATCH_LIMIT as nat) > VISIBLE_MATCH_LIMIT,
        start < total_rows(count as nat, VISIBLE_MATCH_LIMIT as nat),
    ensures
        ws < total_rows(count as nat, VISIBLE_MATCH_LIMIT as nat),
        shows(count as nat, ws as nat, selected as nat),
{
    let total = count + 1;
    let ghost target: nat = if forward {
        if selected >= start {
            (selected - start) as nat
        } else {
            (selected + total - start) as nat
        }
    } else {
        if start >= selected {
            (start - selected) as nat
        } else {
            (start + total - selected) as nat
        }
    };
    let mut ws = start;
    let mut guard: usize = 0;
    proof {
        lemma_window_at_selected(count as nat, selected as nat);
    }
    while !selected_is_visible(count, ws, selected) && guard < total
        invariant
            selected < count < usize::MAX,
            total == count + 1,
            total == total_rows(count as nat, VISIBLE_MATCH_LIMIT as nat),
            start < total,
            ws < total,
            guard <= target < total,
            forward ==> ws == wrapped(start as nat, guard as nat, total as nat),
            !forward ==> ws + guard == start || ws + guard == start + total,
            target == (if forward {
                if selected >= start {
                    (selected - start) as nat
                } else {
                    (selected + total - start) as nat
                }
            } else {
                if start >= selected {
                    (start - selected) as nat
                } else {
                    (start + total - selected) as nat
                }
            }),
            shows(count as nat, selected as nat, selected as nat),
        decreases total - guard,
    {
        assert(ws != selected);
        if forward {
            ws = if ws + 1 == total {
                0
            } else {
                ws + 1
            };
        } else {
            ws = if ws == 0 {
                total - 1
            } else {
                ws - 1
            };
        }
        guard = guard + 1;
    }
    assert(guard < total);
    ws
}

// ---------------------------------------------------------------------------
// Triggers
// ---------------------------------------------------------------------------

/// The leader and start of the token that opened the typeahead.
#[derive(Debug, Clone, Copy, PartialEq, Eq, Structural)]
pub struct TriggerToken {
    pub leader: char,
    pub token_start: usize,
}

/// The characters before the cursor (the cursor is clamped to the end).
pub open spec fn before_cursor(input: &str, cursor_pos: usize) -> Seq<char> {
    let n = input.spec_bytes().len();
    let m = if cursor_pos < n {
        cursor_pos as int
    } else {
        n as int
    };
    decode_utf8(input.spec_bytes().subrange(0, m))
}

/// The token that triggers a typeahead: the last token before the cursor, when
/// it starts with `/` or `@`.
pub open spec fn trigger_of(prefix: Seq<char>) -> Option<TriggerToken> {
    let b = token_begin(prefix) as int;
    if b < prefix.len() && (prefix[b] == '/' || prefix[b] == '@') {
        Some(TriggerToken { leader: prefix[b], token_start: utf8_len(prefix.take(b)) as usize })
    } else {
        None
    }
}

/// The cursor may not split a character.
pub open spec fn cursor_on_boundary(input: &str, cursor_pos: usize) -> bool {
    let n = input.spec_bytes().len();
    is_char_boundary(input.spec_bytes(), if cursor_pos < n { cursor_pos as int } else { n as int })
}

/// The text before the cursor.
pub fn cursor_prefix(input: &str, cursor_pos: usize) -> (p: &str)
    requires
        cursor_on_boundary(input, cursor_pos),
    ensures
        p@ == before_cursor(input, cursor_pos),
{
    let bytes = input.as_bytes();
    let m = if cursor_pos < bytes.len() {
        cursor_pos
    } else {
        bytes.len()
    };
    proof {
        encode_utf8_valid_utf8(input@);
    }
    let (p, _) = input.split_at(m);
    proof {
        encode_utf8_decode_utf8(p@);
    }
    p
}

/// The token before the cursor that triggers a typeahead, if any.
pub fn current_trigger_token(input: &str, cursor_pos: usize) -> (t: Option<TriggerToken>)
    requires
        cursor_on_boundary(input, cursor_pos),
    ensures
        t == trigger_of(before_cursor(input, cursor_pos)),
{
    let prefix = cursor_prefix(input, cursor_pos);
    match extract_query_token(prefix) {
        Some((token_start, leader, _)) => {
            if leader == '/' || leader == '@' {
                Some(TriggerToken { leader, token_start })
            } else {
                None
            }
        },
        None => None,
    }
}

// ---------------------------------------------------------------------------
// Active typeaheads
// ---------------------------------------------------------------------------

/// The typeahead that is showing: commands after `/`, files after `@`.
#[derive(Debug, Clone, PartialEq, Eq)]
pub enum ActiveTypeahead {
    Command(TypeaheadMatchSet<Command>),
    Mention(TypeaheadMatchSet<Mention>),
}

pub open spec fn active_count(a: ActiveTypeahead) -> nat {
    match a {
        ActiveTypeahead::Command(set) => set.matches@.len(),
        ActiveTypeahead::Mention(set) => set.matches@.len(),
    }
}

pub open spec fn active_token_start(a: ActiveTypeahead) -> usize {
    match a {
        ActiveTypeahead::Command(set) => set.token_start,
        ActiveTypeahead::Mention(set) => set.token_start,
    }
}

pub open spec fn active_cursor_pos(a: ActiveTypeahead) -> usize {
    match a {
        ActiveTypeahead::Command(set) => set.cursor_pos,
        ActiveTypeahead::Mention(set) => set.cursor_pos,
    }
}

impl ActiveTypeahead {
    /// How many matches are offered.
    pub fn match_count(&self) -> (n: usize)
        ensures
            n == active_count(*self),
    {
        match self {
            ActiveTypeahead::Command(set) => set.matches.len(),
            ActiveTypeahead::Mention(set) => set.matches.len(),
        }
    }

    fn token_start(&self) -> (n: usize)
        ensures
            n == active_token_start(*self),
    {
        match self {
            ActiveTypeahead::Command(set) => set.token_start,
            ActiveTypeahead::Mention(set) => set.token_start,
        }
    }

    fn cursor_pos(&self) -> (n: usize)
        ensures
            n == active_cursor_pos(*self),
    {
        match self {
            ActiveTypeahead::Command(set) => set.cursor_pos,
            ActiveTypeahead::Mention(set) => set.cursor_pos,
        }
    }
}

/// The match chosen from a typeahead and the token it replaces.
#[derive(Debug, Clone, PartialEq, Eq)]
pub enum TypeaheadActivation {
    Command { command: Command, token_start: usize, token_end: usize },
    Mention { mention: Mention, token_start: usize, token_end: usize },
}

/// What to ask a typeahead source for: the query after the leader of the
/// token before the cursor.
pub struct TypeaheadQuery {
    pub leader: char,
    pub query: String,
    pub token_start: usize,
    pub cursor_pos: usize,
}

/// The match set for a query from what its source answered.
pub fn build_match_set<T>(q: &TypeaheadQuery, result: TypeaheadQueryResult<T>) -> (set: TypeaheadMatchSet<T>)
    ensures
        set.leader == q.leader,
        set.query@ == q.query@,
        set.token_start == q.token_start,
        set.cursor_pos == q.cursor_pos,
        set.loading == result.loading,
        set.show_loading == result.loading,
        set.matches == result.matches,
{
    TypeaheadMatchSet {
        leader: q.leader,
        query: q.query.clone(),
        token_start: q.token_start,
        cursor_pos: q.cursor_pos,
        loading: result.loading,
        show_loading: result.loading,
        matches: result.matches,
    }
}

pub(crate) fn clone_matches<T: Clone>(v: &Vec<T>) -> (r: Vec<T>)
    ensures
        r.len() == v.len(),
        forall|i: int| 0 <= i < r.len() ==> cloned(v@[i], #[trigger] r@[i]),
{
    let mut r: Vec<T> = Vec::new();
    for i in 0..v.len()
        invariant
            r.len() == i,
            forall|k: int| 0 <= k < i ==> cloned(v@[k], #[trigger] r@[k]),
    {
        r.push(v[i].clone());
    }
    r
}

/// A copy of a match set: the same fields, with the matches cloned.
pub open spec fn copied_set<T: Clone>(a: TypeaheadMatchSet<T>, b: TypeaheadMatchSet<T>) -> bool {
    &&& b.leader == a.leader
    &&& b.query@ == a.query@
    &&& b.token_start == a.token_start
    &&& b.cursor_pos == a.cursor_pos
    &&& b.loading == a.loading
    &&& b.show_loading == a.show_loading
    &&& b.matches.len() == a.matches.len()
    &&& forall|i: int| 0 <= i < b.matches.len() ==> cloned(a.matches@[i], #[trigger] b.matches@[i])
}

fn copy_set<T: Clone>(set: &TypeaheadMatchSet<T>) -> (r: TypeaheadMatchSet<T>)
    ensures
        copied_set(*set, r),
{
    TypeaheadMatchSet {
        leader: set.leader,
        query: set.query.clone(),
        token_start: set.token_start,
        cursor_pos: set.cursor_pos,
        loading: set.loading,
        show_loading: set.show_loading,
        matches: clone_matches(&set.matches),
    }
}

/// While a query loads and its note is held back, keeps showing the matches
/// last shown for the same token instead of an empty list; and remembers the
/// set as the last one shown once it is settled or has matches.
pub fn stabilize_set_during_loading_delay<T: Clone>(
    previous_set: &mut Option<TypeaheadMatchSet<T>>,
    set: &mut TypeaheadMatchSet<T>,
)
    ensures
        ({
            let delaying = old(set).loading && !old(set).show_loading && old(set).matches.len()
                == 0;
            let reuse = delaying && (*old(previous_set) matches Some(p) && p.token_start
                == old(set).token_start);
            &&& final(set).leader == old(set).leader
            &&& final(set).query == old(set).query
            &&& final(set).token_start == old(set).token_start
            &&& final(set).cursor_pos == old(set).cursor_pos
            &&& final(set).loading == old(set).loading
            &&& final(set).show_loading == old(set).show_loading
            &&& !reuse ==> final(set).matches == old(set).matches
            &&& reuse ==> final(set).matches.len() == (*old(previous_set))->0.matches.len() && forall|
                i: int,
            |
                0 <= i < final(set).matches.len() ==> cloned(
                    (*old(previous_set))->0.matches@[i],
                    #[trigger] final(set).matches@[i],
                )
            &&& (!final(set).loading || final(set).matches.len() > 0) ==> (*final(previous_set) matches Some(
                p,
            ) && copied_set(*final(set), p))
            &&& !(!final(set).loading || final(set).matches.len() > 0) ==> *final(previous_set) == *old(
                previous_set,
            )
        }),
{
    let delaying = set.loading && !set.show_loading && set.matches.len() == 0;
    if delaying {
        match previous_set {
            Some(previous) => {
                if previous.token_start == set.token_start {
                    set.matches = clone_matches(&previous.matches);
                }
            },
            None => {},
        }
    }
    if !set.loading || set.matches.len() > 0 {
        *previous_set = Some(copy_set(set));
    }
}

// ---------------------------------------------------------------------------
// The typeahead's state
// ---------------------------------------------------------------------------

/// When a loading note for a token started to be held back, and whether it
/// shows by now.
#[derive(Debug, Clone, Copy, PartialEq, Eq, Structural)]
pub struct LoadingIndicatorState {
    pub leader: char,
    pub token_start: usize,
    pub since_ms: u64,
    pub visible: bool,
}

/// The loading note's state after a query for the token (`leader`,
/// `token_start`) reports `loading` at time `now_ms`, and whether the note shows.
pub open spec fn loading_step(
    ind: Option<LoadingIndicatorState>,
    leader: char,
    token_start: usize,
    loading: bool,
    now_ms: u64,
) -> (Option<LoadingIndicatorState>, bool) {
    if !loading {
        (None, false)
    } else {
        match ind {
            Some(st) => if st.leader == leader && st.token_start == token_start {
                if st.visible {
                    (ind, true)
                } else if now_ms >= st.since_ms && now_ms - st.since_ms >= LOADING_TEXT_DELAY_MS {
                    (Some(LoadingIndicatorState { visible: true, ..st }), true)
                } else {
                    (ind, false)
                }
            } else {
                (
                    Some(
                        LoadingIndicatorState { leader, token_start, since_ms: now_ms, visible: false },
                    ),
                    false,
                )
            },
            None => (
                Some(LoadingIndicatorState { leader, token_start, since_ms: now_ms, visible: false }),
                false,
            ),
        }
    }
}

/// The selection, window and dismissal state of the input's typeahead.
pub struct TypeaheadState {
    pub selected_index: usize,
    pub window_start: usize,
    pub last_presented_command: Option<TypeaheadMatchSet<Command>>,
    pub last_presented_mention: Option<TypeaheadMatchSet<Mention>>,
    pub trigger_seq: u64,
    pub suppressed_seq: Option<u64>,
    pub last_trigger_token: Option<TriggerToken>,
    pub loading_indicator: Option<LoadingIndicatorState>,
}

pub open spec fn wrapping_inc(n: u64) -> u64 {
    if n == u64::MAX {
        0
    } else {
        (n + 1) as u64
    }
}

/// The state after the trigger token became `cur`: a new token starts a new
/// trigger (selection reset), no token clears the dismissal.
pub open spec fn synced(s: TypeaheadState, cur: Option<TriggerToken>) -> TypeaheadState {
    if cur == s.last_trigger_token {
        s
    } else if cur is Some {
        TypeaheadState {
            trigger_seq: wrapping_inc(s.trigger_seq),
            selected_index: 0,
            window_start: 0,
            last_trigger_token: cur,
            ..s
        }
    } else {
        TypeaheadState {
            selected_index: 0,
            window_start: 0,
            suppressed_seq: None,
            last_trigger_token: cur,
            ..s
        }
    }
}

/// Whether the current trigger was dismissed.
pub open spec fn is_suppressed(s: TypeaheadState) -> bool {
    s.suppressed_seq == Some(s.trigger_seq)
}

impl TypeaheadState {
    /// Nothing selected, nothing dismissed.
    pub fn new() -> (s: TypeaheadState)
        ensures
            s.selected_index == 0,
            s.window_start == 0,
            s.last_presented_command is None,
            s.last_presented_mention is None,
            s.trigger_seq == 0,
            s.suppressed_seq is None,
            s.last_trigger_token is None,
            s.loading_indicator is None,
    {
        TypeaheadState {
            selected_index: 0,
            window_start: 0,
            last_presented_command: None,
            last_presented_mention: None,
            trigger_seq: 0,
            suppressed_seq: None,
            last_trigger_token: None,
            loading_indicator: None,
        }
    }

    pub fn selected_index(&self) -> (n: usize)
        ensures
            n == self.selected_index,
    {
        self.selected_index
    }

    pub fn window_start(&self) -> (n: usize)
        ensures
            n == self.window_start,
    {
        self.window_start
    }

    /// Follows the trigger token before the cursor.
    pub fn sync(&mut self, input: &str, cursor_pos: usize)
        requires
            cursor_on_boundary(input, cursor_pos),
        ensures
            *final(self) == synced(*old(self), trigger_of(before_cursor(input, cursor_pos))),
    {
        let current = current_trigger_token(input, cursor_pos);
        if current != self.last_trigger_token {
            if current.is_some() {
                self.trigger_seq = self.trigger_seq.wrapping_add(1);
                self.selected_index = 0;
                self.window_start = 0;
            } else {
                self.selected_index = 0;
                self.window_start = 0;
                self.suppressed_seq = None;
            }
            self.last_trigger_token = current;
        }
    }

    /// Hides the typeahead for the current trigger token until it changes.
    pub fn dismiss(&mut self, input: &str, cursor_pos: usize)
        requires
            cursor_on_boundary(input, cursor_pos),
        ensures
            ({
                let s = synced(*old(self), trigger_of(before_cursor(input, cursor_pos)));
                if s.last_trigger_token is Some {
                    *final(self) == (TypeaheadState { suppressed_seq: Some(s.trigger_seq), ..s })
                } else {
                    *final(self) == s
                }
            }),
    {
        self.sync(input, cursor_pos);
        if self.last_trigger_token.is_some() {
            self.suppressed_seq = Some(self.trigger_seq);
        }
    }

    /// Decides what to ask for the text before the cursor: nothing when the
    /// trigger was dismissed or the token does not start with `/` or `@`.
    pub fn begin_query(&mut self, input: &str, cursor_pos: usize) -> (r: Option<TypeaheadQuery>)
        requires
            cursor_on_boundary(input, cursor_pos),
        ensures
            ({
                let p = before_cursor(input, cursor_pos);
                let s = synced(*old(self), trigger_of(p));
                let b = token_begin(p) as int;
                if is_suppressed(s) {
                    &&& r is None
                    &&& *final(self) == (TypeaheadState { loading_indicator: None, ..s })
                } else if b == p.len() {
                    r is None && *final(self) == s
                } else if p[b] == '/' || p[b] == '@' {
                    &&& *final(self) == s
                    &&& r matches Some(q) && q.leader == p[b] && q.query@ == p.skip(b + 1)
                        && q.token_start == utf8_len(p.take(b)) && q.cursor_pos == utf8_len(p)
                } else {
                    &&& r is None
                    &&& *final(self) == (TypeaheadState { loading_indicator: None, ..s })
                }
            }),
    {
        self.sync(input, cursor_pos);
        if self.suppressed_seq == Some(self.trigger_seq) {
            self.loading_indicator = None;
            return None;
        }
        let prefix = cursor_prefix(input, cursor_pos);
        let cursor = prefix.as_bytes().len();
        match extract_query_token(prefix) {
            None => None,
            Some((token_start, leader, query)) => {
                if leader == '/' || leader == '@' {
                    Some(TypeaheadQuery { leader, query: query.to_owned(), token_start, cursor_pos: cursor })
                } else {
                    self.loading_indicator = None;
                    None
                }
            },
        }
    }

    /// Holds back the loading note of a loading query until it has loaded for
    /// `LOADING_TEXT_DELAY_MS` without a change of token.
    fn loading_delay(&mut self, leader: char, token_start: usize, loading: bool, now_ms: u64) -> (show: bool)
        ensures
            (final(self).loading_indicator, show) == loading_step(
                old(self).loading_indicator,
                leader,
                token_start,
                loading,
                now_ms,
            ),
            *final(self) == (TypeaheadState { loading_indicator: final(self).loading_indicator, ..*old(self) }),
    {
        if !loading {
            self.loading_indicator = None;
            return false;
        }
        match self.loading_indicator {
            Some(st) => {
                if st.leader == leader && st.token_start == token_start {
                    if st.visible {
                        true
                    } else if now_ms >= st.since_ms && now_ms - st.since_ms >= LOADING_TEXT_DELAY_MS {
                        self.loading_indicator = Some(LoadingIndicatorState { visible: true, ..st });
                        true
                    } else {
                        false
                    }
                } else {
                    self.loading_indicator = Some(
                        LoadingIndicatorState { leader, token_start, since_ms: now_ms, visible: false },
                    );
                    false
                }
            },
            None => {
                self.loading_indicator = Some(
                    LoadingIndicatorState { leader, token_start, since_ms: now_ms, visible: false },
                );
                false
            },
        }
    }

    /// Keeps the selection on a match and the window on the selection.
    fn normalize_window_for_count(&mut self, count: usize)
        requires
            old(self).selected_index < count || count == 0,
        ensures
            final(self).selected_index == old(self).selected_index,
            count == 0 ==> final(self).window_start == 0,
            count > 0 && count < usize::MAX ==> shows(count as nat, final(self).window_start as nat, final(self).selected_index as nat),
            *final(self) == (TypeaheadState { window_start: final(self).window_start, ..*old(self) }),
    {
        if count == 0 || count == usize::MAX {
            // A list this long cannot be held in memory.
            self.window_start = 0;
            return;
        }
        let total = if count > VISIBLE_MATCH_LIMIT {
            count + 1
        } else {
            count
        };
        if total <= VISIBLE_MATCH_LIMIT {
            self.window_start = 0;
            proof {
                lemma_window_small(count as nat, self.selected_index as nat);
            }
            return;
        }
        let start = self.window_start % total;
        self.window_start = scroll_until_visible(count, start, self.selected_index, true);
    }

    /// Shows a match set: holds back its loading note, keeps the last matches
    /// while a new query loads, and clamps the selection and window to it.
    pub fn present(&mut self, active: ActiveTypeahead, now_ms: u64) -> (r: ActiveTypeahead)
        ensures
            active_count(r) > 0 ==> final(self).selected_index < active_count(r),
            active_count(r) == 0 ==> final(self).selected_index == 0 && final(self).window_start == 0,
            0 < active_count(r) < usize::MAX ==> shows(
                active_count(r) as nat,
                final(self).window_start as nat,
                final(self).selected_index as nat,
            ),
            active_token_start(r) == active_token_start(active),
            active_cursor_pos(r) == active_cursor_pos(active),
            final(self).trigger_seq == old(self).trigger_seq,
            final(self).suppressed_seq == old(self).suppressed_seq,
            final(self).last_trigger_token == old(self).last_trigger_token,
    {
        let r = match active {
            ActiveTypeahead::Command(set) => {
                let mut set = set;
                let show = self.loading_delay(set.leader, set.token_start, set.loading, now_ms);
                set.show_loading = show;
                stabilize_set_during_loading_delay(&mut self.last_presented_command, &mut set);
                ActiveTypeahead::Command(set)
            },
            ActiveTypeahead::Mention(set) => {
                let mut set = set;
                let show = self.loading_delay(set.leader, set.token_start, set.loading, now_ms);
                set.show_loading = show;
                stabilize_set_during_loading_delay(&mut self.last_presented_mention, &mut set);
                ActiveTypeahead::Mention(set)
            },
        };
        let count = r.match_count();
        if count == 0 {
            self.selected_index = 0;
        } else if self.selected_index >= count {
            self.selected_index = count - 1;
        }
        self.normalize_window_for_count(count);
        r
    }

    /// Moves the selection one match down (or up when `direction` is negative),
    /// wrapping around, and scrolls the window to keep it shown.
    pub fn move_selection(&mut self, direction: i32, count: usize)
        ensures
            count == 0 ==> *final(self) == *old(self),
            count > 0 ==> ({
                let sel = if old(self).selected_index < count {
                    old(self).selected_index as int
                } else {
                    count - 1
                };
                final(self).selected_index == (if direction < 0 {
                    if sel == 0 {
                        count - 1
                    } else {
                        sel - 1
                    }
                } else if sel + 1 >= count {
                    0
                } else {
                    sel + 1
                })
            }),
            0 < count < usize::MAX ==> shows(
                count as nat,
                final(self).window_start as nat,
                final(self).selected_index as nat,
            ),
            final(self).trigger_seq == old(self).trigger_seq,
            final(self).suppressed_seq == old(self).suppressed_seq,
            final(self).last_trigger_token == old(self).last_trigger_token,
    {
        if count == 0 {
            return ;
        }
        if self.selected_index >= count {
            self.selected_index = count - 1;
        }
        if direction < 0 {
            if self.selected_index == 0 {
                self.selected_index = count - 1;
            } else {
                self.selected_index = self.selected_index - 1;
            }
        } else if self.selected_index + 1 >= count {
            self.selected_index = 0;
        } else {
            self.selected_index = self.selected_index + 1;
        }
        if count == usize::MAX {
            // A list this long cannot be held in memory.
            return ;
        }
        let total = if count > VISIBLE_MATCH_LIMIT {
            count + 1
        } else {
            count
        };
        if total <= VISIBLE_MATCH_LIMIT {
            self.window_start = 0;
            proof {
                lemma_window_small(count as nat, self.selected_index as nat);
            }
            return ;
        }
        let start = self.window_start % total;
        self.window_start = scroll_until_visible(count, start, self.selected_index, direction >= 0);
    }

    /// Takes the selected match, resets the selection, and hides the typeahead
    /// until the trigger token changes.
    pub fn activate_selected(&mut self, active: ActiveTypeahead) -> (r: Option<TypeaheadActivation>)
        ensures
            active_count(active) == 0 ==> r is None && *final(self) == *old(self),
            active_count(active) > 0 ==> ({
                let sel = if old(self).selected_index < active_count(active) {
                    old(self).selected_index as int
                } else {
                    active_count(active) - 1
                };
                &&& *final(self) == (TypeaheadState {
                    selected_index: 0,
                    window_start: 0,
                    suppressed_seq: Some(old(self).trigger_seq),
                    ..*old(self)
                })
                &&& match active {
                    ActiveTypeahead::Command(set) => r matches Some(
                        TypeaheadActivation::Command { command, token_start, token_end },
                    ) && cloned(set.matches@[sel], command) && token_start == set.token_start
                        && token_end == set.cursor_pos,
                    ActiveTypeahead::Mention(set) => r matches Some(
                        TypeaheadActivation::Mention { mention, token_start, token_end },
                    ) && cloned(set.matches@[sel], mention) && token_start == set.token_start
                        && token_end == set.cursor_pos,
                }
            }),
    {
        let count = active.match_count();
        if count == 0 {
            return None;
        }
        let selected = if self.selected_index < count - 1 {
            self.selected_index
        } else {
            count - 1
        };
        let token_start = active.token_start();
        let token_end = active.cursor_pos();
        let activation = match active {
            ActiveTypeahead::Command(set) => {
                let command = set.matches[selected].clone();
                TypeaheadActivation::Command { command, token_start, token_end }
            },
            ActiveTypeahead::Mention(set) => {
                let mention = set.matches[selected].clone();
                TypeaheadActivation::Mention { mention, token_start, token_end }
            },
        };
        self.selected_index = 0;
        self.window_start = 0;
        self.suppressed_seq = Some(self.trigger_seq);
        Some(activation)
    }
}

/// Taking a match hides the typeahead, with the selection and window reset,
/// for as long as the trigger token stays the one it was taken from: each
/// later `sync` or `begin_query` on the same token finds the trigger
/// dismissed (so `begin_query` asks for nothing).
pub proof fn law_activation_hides_typeahead_while_token_stays(
    before: TypeaheadState,
    after: TypeaheadState,
    cur: Option<TriggerToken>,
)
    requires
        after == (TypeaheadState {
            selected_index: 0,
            window_start: 0,
            suppressed_seq: Some(before.trigger_seq),
            ..before
        }),
        cur == before.last_trigger_token,
    ensures
        is_suppressed(synced(after, cur)),
        synced(after, cur).selected_index == 0,
        synced(after, cur).window_start == 0,
{
}

/// A dismissal lasts while the trigger token stays the same and is lifted as
/// soon as the token changes (to another trigger or to none).
pub proof fn law_dismissal_lasts_until_token_changes(s: TypeaheadState, cur: Option<TriggerToken>)
    requires
        s.suppressed_seq == Some(s.trigger_seq),
    ensures
        cur == s.last_trigger_token ==> is_suppressed(synced(s, cur)),
        cur != s.last_trigger_token ==> !is_suppressed(synced(s, cur)),
{
}

} // verus!
