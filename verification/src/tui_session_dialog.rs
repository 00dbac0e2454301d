//! The terminal dialog that picks a session to resume: its entries, selection,
//! and the placement of its popup and visible rows.

use vstd::prelude::*;

use crate::models::Session;
use crate::session_dialog::{label_of, moved, session_label};

verus! {

/// One session in the dialog.
#[derive(Debug, Clone)]
pub struct ResumeSessionDialogEntry {
    pub session_id: String,
    pub label: String,
}

/// The sessions offered and the one selected.
#[derive(Debug, Clone)]
pub struct ResumeSessionDialogState {
    pub entries: Vec<ResumeSessionDialogEntry>,
    pub selected_index: usize,
}

impl ResumeSessionDialogState {
    /// A dialog over `entries` with the first one selected.
    pub fn new(entries: Vec<ResumeSessionDialogEntry>) -> (d: ResumeSessionDialogState)
        ensures
            d.entries == entries,
            d.selected_index == 0,
    {
        ResumeSessionDialogState { entries, selected_index: 0 }
    }
}

/// The entries for `sessions`, in their order: each session's id and label.
pub fn build_dialog_entries(sessions: Vec<Session>) -> (r: Vec<ResumeSessionDialogEntry>)
    ensures
        r.len() == sessions.len(),
        forall|i: int|
            0 <= i < r.len() ==> (#[trigger] r@[i]).session_id@ == sessions@[i].id@ && r@[i].label@
                == label_of(sessions@[i]),
{
    let mut r: Vec<ResumeSessionDialogEntry> = Vec::new();
    for i in 0..sessions.len()
        invariant
            r.len() == i,
            forall|k: int|
                0 <= k < i ==> (#[trigger] r@[k]).session_id@ == sessions@[k].id@ && r@[k].label@
                    == label_of(sessions@[k]),
    {
        let session = &sessions[i];
        r.push(
            ResumeSessionDialogEntry { session_id: session.id.clone(), label: session_label(session) },
        );
    }
    r
}

/// Moves the selection one entry, wrapping around; nothing happens without entries.
pub fn move_selection(dialog: &mut ResumeSessionDialogState, direction: i32)
    requires
        old(dialog).entries.len() == 0 || old(dialog).selected_index < usize::MAX,
    ensures
        final(dialog).entries == old(dialog).entries,
        old(dialog).entries.len() == 0 ==> final(dialog).selected_index == old(dialog).selected_index,
        old(dialog).entries.len() > 0 ==> final(dialog).selected_index == moved(
            old(dialog).selected_index as int,
            old(dialog).entries.len() as int,
            direction,
        ),
{
    if dialog.entries.len() == 0 {
        return ;
    }
    if direction < 0 {
        dialog.selected_index = if dialog.selected_index == 0 {
            dialog.entries.len() - 1
        } else {
            dialog.selected_index - 1
        };
    } else {
        dialog.selected_index = (dialog.selected_index + 1) % dialog.entries.len();
    }
}

/// The id of the selected session, if the selection is on an entry.
pub fn selected_session_id(dialog: &ResumeSessionDialogState) -> (r: Option<&str>)
    ensures
        dialog.selected_index < dialog.entries.len() ==> (r matches Some(id) && id@
            == dialog.entries@[dialog.selected_index as int].session_id@),
        dialog.selected_index >= dialog.entries.len() ==> r is None,
{
    if dialog.selected_index < dialog.entries.len() {
        Some(dialog.entries[dialog.selected_index].session_id.as_str())
    } else {
        None
    }
}

/// A rectangle of terminal cells.
#[derive(Debug, Clone, Copy, PartialEq, Eq)]
pub struct CellRect {
    pub x: u16,
    pub y: u16,
    pub width: u16,
    pub height: u16,
}

/// Where the dialog is drawn and which entries it lists.
#[derive(Debug, Clone, Copy, PartialEq, Eq)]
pub struct DialogLayout {
    pub popup: CellRect,
    pub first_row: usize,
    pub end_row: usize,
}

/// Rows of entries listed at most.
pub const MAX_VISIBLE_ROWS: usize = 8;

pub open spec fn clamp(v: int, lo: int, hi: int) -> int {
    if v < lo {
        lo
    } else if v > hi {
        hi
    } else {
        v
    }
}

pub open spec fn sat_sub(a: int, b: int) -> int {
    if a > b {
        a - b
    } else {
        0
    }
}

pub open spec fn min_int(a: int, b: int) -> int {
    if a < b {
        a
    } else {
        b
    }
}

/// A `width` by `height` rectangle centred in `area` (shrunk to fit it).
pub open spec fn centered(width: int, height: int, area: CellRect) -> CellRect {
    let w = min_int(width, area.width as int);
    let h = min_int(height, area.height as int);
    CellRect {
        x: (area.x + (area.width - w) / 2) as u16,
        y: (area.y + (area.height - h) / 2) as u16,
        width: w as u16,
        height: h as u16,
    }
}

/// The popup of a dialog with `len` entries in `area`, and the entries it lists
/// so that the selected one is the last listed when it is below the first page.
pub open spec fn dialog_layout_of(len: nat, selected: nat, area: CellRect) -> DialogLayout {
    let width = clamp(sat_sub(area.width as int, 8), 20, 90);
    let height = clamp(min_int(len as int, MAX_VISIBLE_ROWS as int) + 4, 6, 16);
    let popup = centered(width, height, area);
    let visible = sat_sub(popup.height as int, 4);
    let first = if selected >= visible && visible > 0 {
        selected + 1 - visible
    } else {
        0
    };
    DialogLayout {
        popup,
        first_row: first as usize,
        end_row: min_int(first + visible, len as int) as usize,
    }
}

fn centered_rect(width: u16, height: u16, area: CellRect) -> (r: CellRect)
    requires
        area.x + area.width <= u16::MAX,
        area.y + area.height <= u16::MAX,
    ensures
        r == centered(width as int, height as int, area),
{
    let popup_width = if width < area.width {
        width
    } else {
        area.width
    };
    let popup_height = if height < area.height {
        height
    } else {
        area.height
    };
    let x = area.x + (area.width - popup_width) / 2;
    let y = area.y + (area.height - popup_height) / 2;
    CellRect { x, y, width: popup_width, height: popup_height }
}

/// Lays out the dialog in `area`.
pub fn dialog_layout(dialog: &ResumeSessionDialogState, area: CellRect) -> (l: DialogLayout)
    requires
        area.x + area.width <= u16::MAX,
        area.y + area.height <= u16::MAX,
        dialog.selected_index < usize::MAX,
    ensures
        l == dialog_layout_of(dialog.entries.len() as nat, dialog.selected_index as nat, area),
{
    let len = dialog.entries.len();
    let narrowed = if area.width > 8 {
        area.width - 8
    } else {
        0
    };
    let dialog_width: u16 = if narrowed < 20 {
        20
    } else if narrowed > 90 {
        90
    } else {
        narrowed
    };
    let rows: u16 = if len < MAX_VISIBLE_ROWS {
        len as u16
    } else {
        MAX_VISIBLE_ROWS as u16
    };
    let wanted = rows + 4;
    let dialog_height: u16 = if wanted < 6 {
        6
    } else if wanted > 16 {
        16
    } else {
        wanted
    };
    let popup = centered_rect(dialog_width, dialog_height, area);
    let visible: usize = if popup.height > 4 {
        (popup.height - 4) as usize
    } else {
        0
    };
    let selected = dialog.selected_index;
    let first = if selected >= visible && visible > 0 {
        selected + 1 - visible
    } else {
        0
    };
    let end = if first < len && len - first > visible {
        first + visible
    } else if first < len {
        len
    } else if first + visible < len {
        first + visible
    } else {
        len
    };
    DialogLayout { popup, first_row: first, end_row: end }
}

} // verus!
