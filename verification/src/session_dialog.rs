//! The dialog that picks a session to resume, and how a session is labelled.

use vstd::prelude::*;

use crate::models::Session;
use crate::text::push_str;

verus! {

/// How a session is listed: its title and id, or `Session` and its id.
pub open spec fn label_of(s: Session) -> Seq<char> {
    match s.title {
        Some(title) => title@ + " ("@ + s.id@ + ")"@,
        None => "Session "@ + s.id@,
    }
}

/// The label under which a session is listed.
pub fn session_label(session: &Session) -> (l: String)
    ensures
        l@ == label_of(*session),
{
    let mut out = String::new();
    match &session.title {
        Some(title) => {
            push_str(&mut out, title.as_str());
            push_str(&mut out, " (");
            push_str(&mut out, session.id.as_str());
            push_str(&mut out, ")");
        },
        None => {
            push_str(&mut out, "Session ");
            push_str(&mut out, session.id.as_str());
        },
    }
    out
}

/// One session in the dialog.
#[derive(Clone)]
pub struct ResumeDialogEntry {
    pub session_id: String,
    pub label: String,
}

/// The sessions offered and the one selected.
pub struct ResumeDialogState {
    pub entries: Vec<ResumeDialogEntry>,
    pub selected_index: usize,
}

impl ResumeDialogState {
    /// A dialog over `entries` with the first one selected.
    pub fn new(entries: Vec<ResumeDialogEntry>) -> (d: ResumeDialogState)
        ensures
            d.entries == entries,
            d.selected_index == 0,
    {
        ResumeDialogState { entries, selected_index: 0 }
    }
}

/// The entries for `sessions`, in their order: each session's id and label.
pub fn build_dialog_entries(sessions: Vec<Session>) -> (r: Vec<ResumeDialogEntry>)
    ensures
        r.len() == sessions.len(),
        forall|i: int|
            0 <= i < r.len() ==> (#[trigger] r@[i]).session_id@ == sessions@[i].id@ && r@[i].label@
                == label_of(sessions@[i]),
{
    let mut r: Vec<ResumeDialogEntry> = Vec::new();
    for i in 0..sessions.len()
        invariant
            r.len() == i,
            forall|k: int|
                0 <= k < i ==> (#[trigger] r@[k]).session_id@ == sessions@[k].id@ && r@[k].label@
                    == label_of(sessions@[k]),
    {
        let session = &sessions[i];
        r.push(ResumeDialogEntry { session_id: session.id.clone(), label: session_label(session) });
    }
    r
}

/// The selection after moving one entry down (or up when `direction` is
/// negative), wrapping around.
pub open spec fn moved(selected: int, len: int, direction: i32) -> int {
    if direction < 0 {
        if selected == 0 {
            len - 1
        } else {
            selected - 1
        }
    } else {
        (selected + 1) % len
    }
}

/// Moves the selection one entry, wrapping around; nothing happens without entries.
pub fn move_selection(dialog: &mut ResumeDialogState, direction: i32)
    requires
        old(dialog).entries.len() == 0 || old(dialog).selected_index < usize::MAX,
    ensures
        final(dialog).entries == old(dialog).entries,
        old(dialog).entries.len() == 0 ==> final(dialog).selected_index == old(dialog).selected_index,
        old(dialog).entries.len() > 0 ==> final(dialog).selected_index == moved(
            old(dialog).selected_index as int,
            old(dialog).entries.len() as int,
            direction,
        ),
{
    if dialog.entries.len() == 0 {
        return ;
    }
    if direction < 0 {
        dialog.selected_index = if dialog.selected_index == 0 {
            dialog.entries.len() - 1
        } else {
            dialog.selected_index - 1
        };
    } else {
        dialog.selected_index = (dialog.selected_index + 1) % dialog.entries.len();
    }
}

/// The id of the selected session, if the selection is on an entry.
pub fn selected_session_id(dialog: &ResumeDialogState) -> (r: Option<&str>)
    ensures
        dialog.selected_index < dialog.entries.len() ==> (r matches Some(id) && id@
            == dialog.entries@[dialog.selected_index as int].session_id@),
        dialog.selected_index >= dialog.entries.len() ==> r is None,
{
    if dialog.selected_index < dialog.entries.len() {
        Some(dialog.entries[dialog.selected_index].session_id.as_str())
    } else {
        None
    }
}

/// Moving the selection up and then down (or down and then up) comes back
/// to the same entry.
pub proof fn law_move_round_trip(selected: int, len: int)
    requires
        0 <= selected < len,
    ensures
        moved(moved(selected, len, -1i32), len, 1i32) == selected,
        moved(moved(selected, len, 1i32), len, -1i32) == selected,
{
    if selected == 0 {
        assert((len - 1 + 1) % len == 0) by {
            vstd::arithmetic::div_mod::lemma_mod_self_0(len);
        }
    } else {
        vstd::arithmetic::div_mod::lemma_small_mod(selected as nat, len as nat);
    }
    if selected + 1 < len {
        vstd::arithmetic::div_mod::lemma_small_mod((selected + 1) as nat, len as nat);
    } else {
        vstd::arithmetic::div_mod::lemma_mod_self_0(len);
    }
}

} // verus!
