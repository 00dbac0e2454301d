//! The terminal interface's typeahead: the same triggers and activation as the
//! window typeahead, without a scrolling window or a delayed loading note.

use vstd::prelude::*;

use crate::commands::Command;
use crate::mentions::Mention;
use crate::text::utf8_len;
use crate::typeahead::{extract_query_token, token_begin, TypeaheadMatchSet};
use crate::typeahead_state::{
    before_cursor, current_trigger_token, cursor_on_boundary, cursor_prefix, trigger_of,
    wrapping_inc, TriggerToken, TypeaheadQuery,
};

verus! {

/// The typeahead that is showing: commands after `/`, files after `@`.
#[derive(Debug, Clone, PartialEq, Eq)]
pub enum ActiveTypeahead {
    Command(TypeaheadMatchSet<Command>),
    Mention(TypeaheadMatchSet<Mention>),
}

pub open spec fn active_count(a: ActiveTypeahead) -> nat {
    match a {
        ActiveTypeahead::Command(set) => set.matches@.len(),
        ActiveTypeahead::Mention(set) => set.matches@.len(),
    }
}

impl ActiveTypeahead {
    /// How many matches are offered.
    pub fn match_count(&self) -> (n: usize)
        ensures
            n == active_count(*self),
    {
        match self {
            ActiveTypeahead::Command(set) => set.matches.len(),
            ActiveTypeahead::Mention(set) => set.matches.len(),
        }
    }

    fn token_start(&self) -> (n: usize)
        ensures
            n == match *self {
                ActiveTypeahead::Command(set) => set.token_start,
                ActiveTypeahead::Mention(set) => set.token_start,
            },
    {
        match self {
            ActiveTypeahead::Command(set) => set.token_start,
            ActiveTypeahead::Mention(set) => set.token_start,
        }
    }

    fn cursor_pos(&self) -> (n: usize)
        ensures
            n == match *self {
                ActiveTypeahead::Command(set) => set.cursor_pos,
                ActiveTypeahead::Mention(set) => set.cursor_pos,
            },
    {
        match self {
            ActiveTypeahead::Command(set) => set.cursor_pos,
            ActiveTypeahead::Mention(set) => set.cursor_pos,
        }
    }
}

/// The match chosen from a typeahead and the token it replaces.
#[derive(Debug, Clone, PartialEq, Eq)]
pub enum TypeaheadActivation {
    Command { command: Command, token_start: usize, token_end: usize },
    Mention { mention: Mention, token_start: usize, token_end: usize },
}

/// Selection and dismissal of the terminal typeahead.
pub struct TypeaheadState {
    pub selected_index: usize,
    pub trigger_seq: u64,
    pub suppressed_seq: Option<u64>,
    pub last_trigger_token: Option<TriggerToken>,
}

/// The state after the trigger token became `cur`.
pub open spec fn synced(s: TypeaheadState, cur: Option<TriggerToken>) -> TypeaheadState {
    if cur == s.last_trigger_token {
        s
    } else if cur is Some {
        TypeaheadState {
            trigger_seq: wrapping_inc(s.trigger_seq),
            selected_index: 0,
            last_trigger_token: cur,
            ..s
        }
    } else {
        TypeaheadState { selected_index: 0, suppressed_seq: None, last_trigger_token: cur, ..s }
    }
}

impl TypeaheadState {
    /// Nothing selected, nothing dismissed.
    pub fn new() -> (s: TypeaheadState)
        ensures
            s.selected_index == 0,
            s.trigger_seq == 0,
            s.suppressed_seq is None,
            s.last_trigger_token is None,
    {
        TypeaheadState { selected_index: 0, trigger_seq: 0, suppressed_seq: None, last_trigger_token: None }
    }

    pub fn selected_index(&self) -> (n: usize)
        ensures
            n == self.selected_index,
    {
        self.selected_index
    }

    /// Follows the trigger token before the cursor.
    pub fn sync(&mut self, input: &str, cursor_pos: usize)
        requires
            cursor_on_boundary(input, cursor_pos),
        ensures
            *final(self) == synced(*old(self), trigger_of(before_cursor(input, cursor_pos))),
    {
        let current = current_trigger_token(input, cursor_pos);
        if current != self.last_trigger_token {
            if current.is_some() {
                self.trigger_seq = self.trigger_seq.wrapping_add(1);
                self.selected_index = 0;
            } else {
                self.selected_index = 0;
                self.suppressed_seq = None;
            }
            self.last_trigger_token = current;
        }
    }

    /// Hides the typeahead for the current trigger token until it changes.
    pub fn dismiss(&mut self, input: &str, cursor_pos: usize)
        requires
            cursor_on_boundary(input, cursor_pos),
        ensures
            ({
                let s = synced(*old(self), trigger_of(before_cursor(input, cursor_pos)));
                if s.last_trigger_token is Some {
                    *final(self) == (TypeaheadState { suppressed_seq: Some(s.trigger_seq), ..s })
                } else {
                    *final(self) == s
                }
            }),
    {
        self.sync(input, cursor_pos);
        if self.last_trigger_token.is_some() {
            self.suppressed_seq = Some(self.trigger_seq);
        }
    }

    /// Decides what to ask for the text before the cursor: nothing when the
    /// trigger was dismissed or the token does not start with `/` or `@`.
    pub fn begin_query(&mut self, input: &str, cursor_pos: usize) -> (r: Option<TypeaheadQuery>)
        requires
            cursor_on_boundary(input, cursor_pos),
        ensures
            ({
                let p = before_cursor(input, cursor_pos);
                let s = synced(*old(self), trigger_of(p));
                let b = token_begin(p) as int;
                &&& *final(self) == s
                &&& if s.suppressed_seq == Some(s.trigger_seq) || b == p.len() || !(p[b] == '/'
                    || p[b] == '@') {
                    r is None
                } else {
                    r matches Some(q) && q.leader == p[b] && q.query@ == p.skip(b + 1)
                        && q.token_start == utf8_len(p.take(b)) && q.cursor_pos == utf8_len(p)
                }
            }),
    {
        self.sync(input, cursor_pos);
        if self.suppressed_seq == Some(self.trigger_seq) {
            return None;
        }
        let prefix = cursor_prefix(input, cursor_pos);
        let cursor = prefix.as_bytes().len();
        match extract_query_token(prefix) {
            None => None,
            Some((token_start, leader, query)) => {
                if leader == '/' || leader == '@' {
                    Some(TypeaheadQuery { leader, query: query.to_owned(), token_start, cursor_pos: cursor })
                } else {
                    None
                }
            },
        }
    }

    /// Clamps the selection to the matches shown.
    pub fn present(&mut self, active: &ActiveTypeahead)
        ensures
            active_count(*active) == 0 ==> final(self).selected_index == 0,
            active_count(*active) > 0 ==> final(self).selected_index == (if old(self).selected_index
                < active_count(*active) {
                old(self).selected_index as int
            } else {
                active_count(*active) - 1
            }),
            *final(self) == (TypeaheadState { selected_index: final(self).selected_index, ..*old(self) }),
    {
        let count = active.match_count();
        if count == 0 {
            self.selected_index = 0;
        } else if self.selected_index >= count {
            self.selected_index = count - 1;
        }
    }

    /// Moves the selection one match down (or up when `direction` is
    /// negative), wrapping around.
    pub fn move_selection(&mut self, direction: i32, count: usize)
        ensures
            count == 0 ==> *final(self) == *old(self),
            count > 0 ==> ({
                let sel = if old(self).selected_index < count {
                    old(self).selected_index as int
                } else {
                    count - 1
                };
                &&& final(self).selected_index == (if direction < 0 {
                    if sel == 0 {
                        count - 1
                    } else {
                        sel - 1
                    }
                } else if sel + 1 >= count {
                    0
                } else {
                    sel + 1
                })
                &&& final(self).selected_index < count
            }),
            *final(self) == (TypeaheadState { selected_index: final(self).selected_index, ..*old(self) }),
    {
        if count == 0 {
            return ;
        }
        if self.selected_index >= count {
            self.selected_index = count - 1;
        }
        if direction < 0 {
            if self.selected_index == 0 {
                self.selected_index = count - 1;
            } else {
                self.selected_index = self.selected_index - 1;
            }
        } else if self.selected_index + 1 >= count {
            self.selected_index = 0;
        } else {
            self.selected_index = self.selected_index + 1;
        }
    }

    /// Takes the selected match, resets the selection, and hides the typeahead
    /// until the trigger token changes.
    pub fn activate_selected(&mut self, active: ActiveTypeahead) -> (r: Option<TypeaheadActivation>)
        ensures
            active_count(active) == 0 ==> r is None && *final(self) == *old(self),
            active_count(active) > 0 ==> ({
                let sel = if old(self).selected_index < active_count(active) {
                    old(self).selected_index as int
                } else {
                    active_count(active) - 1
                };
                &&& *final(self) == (TypeaheadState {
                    selected_index: 0,
                    suppressed_seq: Some(old(self).trigger_seq),
                    ..*old(self)
                })
                &&& match active {
                    ActiveTypeahead::Command(set) => r matches Some(
                        TypeaheadActivation::Command { command, token_start, token_end },
                    ) && cloned(set.matches@[sel], command) && token_start == set.token_start
                        && token_end == set.cursor_pos,
                    ActiveTypeahead::Mention(set) => r matches Some(
                        TypeaheadActivation::Mention { mention, token_start, token_end },
                    ) && cloned(set.matches@[sel], mention) && token_start == set.token_start
                        && token_end == set.cursor_pos,
                }
            }),
    {
        let count = active.match_count();
        if count == 0 {
            return None;
        }
        let selected = if self.selected_index < count - 1 {
            self.selected_index
        } else {
            count - 1
        };
        let token_start = active.token_start();
        let token_end = active.cursor_pos();
        let activation = match active {
            ActiveTypeahead::Command(set) => {
                let command = set.matches[selected].clone();
                TypeaheadActivation::Command { command, token_start, token_end }
            },
            ActiveTypeahead::Mention(set) => {
                let mention = set.matches[selected].clone();
                TypeaheadActivation::Mention { mention, token_start, token_end }
            },
        };
        self.selected_index = 0;
        self.suppressed_seq = Some(self.trigger_seq);
        Some(activation)
    }

    /// Whether the typeahead waits on background work: the token is a file
    /// mention and the file source still has pending work.
    pub fn has_background_work(&self, input: &str, cursor_pos: usize, mention_pending: bool) -> (b: bool)
        requires
            cursor_on_boundary(input, cursor_pos),
        ensures
            ({
                let p = before_cursor(input, cursor_pos);
                let t = token_begin(p) as int;
                b == (t < p.len() && p[t] == '@' && mention_pending)
            }),
    {
        let prefix = cursor_prefix(input, cursor_pos);
        match extract_query_token(prefix) {
            Some((_, leader, _)) => leader == '@' && mention_pending,
            None => false,
        }
    }
}

} // verus!
