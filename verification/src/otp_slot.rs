//! Slot-level logic of the one-time-password input: which slot is active,
//! which slots a pointer drag selects, and what each slot shows.

use std::ops::Range;
use vstd::prelude::*;

use crate::otp_edit::{max_nat, min_nat};
use crate::text::chars_of;

verus! {

/// The slot that receives the next character: the slot under the caret,
/// never past the end of the value and never past the last slot. `None`
/// when there are no slots.
pub open spec fn spec_active_slot_index(cursor: nat, len: nat, max: nat) -> Option<usize> {
    if max == 0 {
        None
    } else {
        Some(min_nat(min_nat(cursor, len), (max - 1) as nat) as usize)
    }
}

/// The slots from `anchor_slot` to `focus_slot`, in either order and both
/// included, each clamped to the last character; `None` for an empty value.
pub open spec fn spec_slot_selection_range(anchor_slot: nat, focus_slot: nat, len: nat) -> Option<Range<usize>> {
    if len == 0 {
        None
    } else {
        let a = min_nat(anchor_slot, (len - 1) as nat);
        let f = min_nat(focus_slot, (len - 1) as nat);
        Some(Range { start: min_nat(a, f) as usize, end: min_nat(max_nat(a, f) + 1, len) as usize })
    }
}

/// Where the caret goes while dragging from `anchor_slot` to `focus_slot`:
/// before the focus slot when dragging backwards, after it otherwise,
/// clamped to the value.
pub open spec fn spec_slot_selection_focus_cursor(anchor_slot: nat, focus_slot: nat, len: nat) -> nat {
    if len == 0 {
        0
    } else if focus_slot < anchor_slot {
        min_nat(focus_slot, len)
    } else {
        min_nat(focus_slot + 1, len)
    }
}

/// The slot that receives the next character (see
/// [`spec_active_slot_index`]).
pub fn active_slot_index(cursor: usize, len: usize, max: usize) -> (r: Option<usize>)
    ensures
        r == spec_active_slot_index(cursor as nat, len as nat, max as nat),
        r matches Some(i) ==> i < max && i <= len && i <= cursor,
{
    if max == 0 {
        return None;
    }
    let c = if cursor < len { cursor } else { len };
    Some(if c < max - 1 { c } else { max - 1 })
}

/// The slots a pointer drag selects (see [`spec_slot_selection_range`]).
pub fn slot_selection_range(anchor_slot: usize, focus_slot: usize, len: usize) -> (r: Option<Range<usize>>)
    ensures
        r == spec_slot_selection_range(anchor_slot as nat, focus_slot as nat, len as nat),
        r matches Some(range) ==> range.start < range.end <= len,
{
    if len == 0 {
        return None;
    }
    let anchor_slot = if anchor_slot < len - 1 { anchor_slot } else { len - 1 };
    let focus_slot = if focus_slot < len - 1 { focus_slot } else { len - 1 };
    let start = if anchor_slot < focus_slot { anchor_slot } else { focus_slot };
    let end = if anchor_slot < focus_slot { focus_slot + 1 } else { anchor_slot + 1 };
    Some(start..if end < len { end } else { len })
}

/// Where the caret goes during a pointer drag (see
/// [`spec_slot_selection_focus_cursor`]).
pub fn slot_selection_focus_cursor(anchor_slot: usize, focus_slot: usize, len: usize) -> (c: usize)
    ensures
        c == spec_slot_selection_focus_cursor(anchor_slot as nat, focus_slot as nat, len as nat),
        c <= len,
{
    if len == 0 {
        return 0;
    }
    if focus_slot < anchor_slot {
        if focus_slot < len { focus_slot } else { len }
    } else {
        if focus_slot < len { focus_slot + 1 } else { len }
    }
}

/// A drag selects the same slots whichever end it starts from.
pub proof fn lemma_slot_selection_symmetric(anchor_slot: nat, focus_slot: nat, len: nat)
    ensures
        spec_slot_selection_range(anchor_slot, focus_slot, len) == spec_slot_selection_range(focus_slot, anchor_slot, len),
{
}

/// A drag over a non-empty value selects a non-empty run of characters
/// that holds both the (clamped) anchor slot and the (clamped) focus slot.
pub proof fn lemma_slot_selection_covers_ends(anchor_slot: usize, focus_slot: usize, len: usize)
    requires
        len > 0,
    ensures
        spec_slot_selection_range(anchor_slot as nat, focus_slot as nat, len as nat) matches Some(r) && r.start < r.end <= len
            && r.start <= min_nat(anchor_slot as nat, (len - 1) as nat) < r.end
            && r.start <= min_nat(focus_slot as nat, (len - 1) as nat) < r.end,
{
}

/// What one slot shows and how it is marked.
#[derive(Clone, Copy, Debug, PartialEq, Eq)]
pub struct SlotView {
    /// The character at the slot's position, if the value reaches it.
    pub character: Option<char>,
    /// The slot is the next one to receive input.
    pub active: bool,
    /// The slot's character is selected.
    pub selected: bool,
    /// The slot is the first selected slot.
    pub selection_start: bool,
    /// The slot is the last selected slot.
    pub selection_end: bool,
    /// No character has been entered at this position.
    pub empty: bool,
}

/// What the slot at `index` shows, given the value, the active slot and the
/// selected range.
pub fn slot_view(
    value: &str,
    index: usize,
    active_index: Option<usize>,
    selected_range: Option<Range<usize>>,
) -> (v: SlotView)
    ensures
        v.character == (if index < value@.len() { Some(value@[index as int]) } else { None::<char> }),
        v.empty == (index >= value@.len()),
        v.active == (active_index == Some(index)),
        v.selected == (selected_range matches Some(r) && r.start <= index < r.end),
        v.selection_start == (selected_range matches Some(r) && r.start == index),
        v.selection_end == (selected_range matches Some(r) && r.end == index + 1),
{
    let chars = chars_of(value);
    let character = if index < chars.len() { Some(chars[index]) } else { None };
    let active = match active_index {
        Some(i) => i == index,
        None => false,
    };
    let (selected, selection_start, selection_end) = match selected_range {
        Some(r) => (r.start <= index && index < r.end, r.start == index, r.end > index && r.end - index == 1),
        None => (false, false, false),
    };
    SlotView { character, active, selected, selection_start, selection_end, empty: character.is_none() }
}


/// A drag selects exactly the slots from the anchor slot to the focus slot,
/// both included, in either order, each first clamped to the last character;
/// a drag that stays on one filled slot selects that slot alone.
pub proof fn lemma_slot_selection_is_exactly_between(anchor_slot: usize, focus_slot: usize, len: usize)
    requires
        len > 0,
    ensures
        ({
            let a: int = if anchor_slot < len { anchor_slot as int } else { len - 1 };
            let f: int = if focus_slot < len { focus_slot as int } else { len - 1 };
            spec_slot_selection_range(anchor_slot as nat, focus_slot as nat, len as nat) matches Some(r)
                && r.start == (if a <= f { a } else { f })
                && r.end == (if a <= f { f } else { a }) + 1
        }),
        anchor_slot < len ==> spec_slot_selection_range(anchor_slot as nat, anchor_slot as nat, len as nat)
            == Some(Range { start: anchor_slot, end: (anchor_slot + 1) as usize }),
{
}

/// While dragging over filled slots, the caret sits at the end of the
/// selection it was extended towards: just after the focus slot when
/// dragging forwards (or staying on the anchor), on the focus slot when
/// dragging backwards. Past the value it stops at the end of the value.
pub proof fn lemma_slot_drag_caret_follows_focus(anchor_slot: usize, focus_slot: usize, len: usize)
    requires
        len > 0,
    ensures
        anchor_slot <= focus_slot ==> spec_slot_selection_focus_cursor(anchor_slot as nat, focus_slot as nat, len as nat)
            == (if focus_slot < len { focus_slot + 1 } else { len as int }),
        focus_slot < anchor_slot ==> spec_slot_selection_focus_cursor(anchor_slot as nat, focus_slot as nat, len as nat)
            == (if focus_slot < len { focus_slot as int } else { len as int }),
        anchor_slot < len && focus_slot < len ==> (spec_slot_selection_range(anchor_slot as nat, focus_slot as nat, len as nat) matches Some(r)
            && spec_slot_selection_focus_cursor(anchor_slot as nat, focus_slot as nat, len as nat)
            == (if focus_slot < anchor_slot { r.start } else { r.end })),
{
}

/// Over an empty value a drag selects nothing and leaves the caret at the
/// start.
pub proof fn lemma_drag_over_empty_value(anchor_slot: usize, focus_slot: usize)
    ensures
        spec_slot_selection_range(anchor_slot as nat, focus_slot as nat, 0) is None,
        spec_slot_selection_focus_cursor(anchor_slot as nat, focus_slot as nat, 0) == 0,
{
}

/// The active slot is the slot under the caret: the caret's own slot when
/// it lies within the value and the slots, the slot after the last
/// character when the caret is past the value, and never past the last
/// slot. There is none without slots.
pub proof fn lemma_active_slot_is_under_caret(cursor: usize, len: usize, max: usize)
    ensures
        max == 0 ==> spec_active_slot_index(cursor as nat, len as nat, max as nat) is None,
        cursor <= len && cursor < max ==> spec_active_slot_index(cursor as nat, len as nat, max as nat) == Some(cursor),
        len < cursor && len < max ==> spec_active_slot_index(cursor as nat, len as nat, max as nat) == Some(len),
        0 < max && max <= cursor && max <= len ==> spec_active_slot_index(cursor as nat, len as nat, max as nat) == Some(
            (max - 1) as usize,
        ),
{
}

} // verus!
