//! The state of a one-time-password input between events: focus, caret,
//! selection and pointer drag. Each event handler of the component is a
//! transition of [`OtpInputState`]; what the component must do outside
//! (focus the native input, write its value and selection back, call the
//! value and completion callbacks) is returned as plain values.

use std::ops::Range;
use vstd::prelude::*;

use crate::otp_edit::{
    lemma_input_change_bounds, lemma_typing_over_slot_replaces_it, min_nat, same_chars, same_run, selection_range_for, spec_input_change,
    spec_input_changed, spec_inserted_at, spec_selection_range_for, InputValueChange,
};
use crate::otp_slot::{
    active_slot_index, slot_selection_focus_cursor, slot_selection_range, spec_active_slot_index,
    spec_slot_selection_focus_cursor, spec_slot_selection_range,
};
use crate::text::{
    char_index_for_utf16, chars_of,
    lemma_char_index_inverts_utf16_offset, lemma_utf16_char_index_monotone, lemma_utf16_offset_fits, spec_utf16_offset,
    string_from_chars, utf16_char_index, utf16_offset_for_char, utf16_width,
};

verus! {

/// The direction of a text selection, as the DOM reports it.
#[derive(Clone, Copy, Debug, PartialEq, Eq, Structural)]
pub enum SelectionDirection {
    Forward,
    Backward,
    Unset,
}

/// The value of the DOM's `selectionDirection` for `direction`.
pub fn selection_direction_for_dom(direction: SelectionDirection) -> (s: &'static str)
    ensures
        direction == SelectionDirection::Forward ==> s@ == "forward"@,
        direction == SelectionDirection::Backward ==> s@ == "backward"@,
        direction == SelectionDirection::Unset ==> s@ == "none"@,
{
    match direction {
        SelectionDirection::Forward => "forward",
        SelectionDirection::Backward => "backward",
        SelectionDirection::Unset => "none",
    }
}

/// `next` is `current` with the characters `a..b` removed.
pub open spec fn spec_removes(current: Seq<char>, next: Seq<char>, a: int, b: int) -> bool {
    0 <= a < b <= current.len() && next == current.take(a) + current.skip(b)
}

/// `next` is what `Backspace` or `Delete` makes of `current`, given the
/// caret `cursor` and the selection: with a (clamped, non-empty) selection,
/// exactly the selected characters removed; without one, the character
/// just before the caret removed (`Backspace`) or the one at the caret
/// removed (`Delete`).
pub open spec fn spec_is_deletion(
    current: Seq<char>,
    next: Seq<char>,
    cursor: nat,
    selection: Option<Range<usize>>,
) -> bool {
    match spec_clamped_selection(selection, current.len()) {
        Some(r) => spec_removes(current, next, r.start as int, r.end as int),
        None => {
            let c = min_nat(cursor, current.len()) as int;
            spec_removes(current, next, c - 1, c) || spec_removes(current, next, c, c + 1)
        },
    }
}

/// Whether `next_chars` is `current_chars` with the characters `a..b`
/// removed.
fn removes(current_chars: &[char], next_chars: &[char], a: usize, b: usize) -> (r: bool)
    ensures
        r == spec_removes(current_chars@, next_chars@, a as int, b as int),
{
    let cur = current_chars.len();
    if !(a < b && b <= cur) {
        return false;
    }
    if next_chars.len() != cur - (b - a) {
        return false;
    }
    let head = same_run(next_chars, 0, current_chars, 0, a);
    let tail = same_run(next_chars, a, current_chars, b, cur - b);
    proof {
        let c = current_chars@;
        let n = next_chars@;
        let expected = c.take(a as int) + c.skip(b as int);
        assert(c.subrange(0, a as int) =~= c.take(a as int));
        assert(c.subrange(b as int, cur as int) =~= c.skip(b as int));
        if head && tail {
            assert(n =~= expected) by {
                assert(n =~= n.subrange(0, a as int) + n.subrange(a as int, n.len() as int));
            }
        }
        if n == expected {
            assert(n.subrange(0, a as int) =~= c.subrange(0, a as int));
            assert(n.subrange(a as int, a + (cur - b)) =~= c.subrange(b as int, cur as int));
        }
    }
    head && tail
}

/// Whether `next_chars` is what `Backspace` or `Delete` makes of
/// `current_chars` with the caret at `cursor` and the given selection (see
/// [`spec_is_deletion`]).
pub fn is_deletion(
    current_chars: &[char],
    next_chars: &[char],
    cursor: usize,
    selection: Option<Range<usize>>,
) -> (d: bool)
    ensures
        d == spec_is_deletion(current_chars@, next_chars@, cursor as nat, selection),
{
    let len = current_chars.len();
    let clamped = match selection {
        Some(r) => selection_range_for(r.start, r.end, len),
        None => None,
    };
    match clamped {
        Some(r) => removes(current_chars, next_chars, r.start, r.end),
        None => {
            let c = if cursor < len { cursor } else { len };
            let backspace = c > 0 && removes(current_chars, next_chars, c - 1, c);
            let delete = c < len && removes(current_chars, next_chars, c, c + 1);
            backspace || delete
        },
    }
}

/// What the value callbacks must be called with after an edit.
#[derive(Clone, Debug, PartialEq, Eq)]
pub struct ValueEffects {
    /// The new value, when it differs from the current one.
    pub set_value: Option<String>,
    /// The new value, when this edit fills the input up to `max`.
    pub complete: Option<String>,
}

/// The value callbacks for a change from `current` to `next`: the new value
/// is reported when it differs, and completion when it reaches `max`
/// characters from fewer.
pub open spec fn spec_value_effects(e: ValueEffects, current: Seq<char>, next: Seq<char>, max: nat) -> bool {
    &&& (e.set_value matches Some(v) ==> v@ == next)
    &&& (e.set_value is Some <==> next != current)
    &&& (e.complete matches Some(v) ==> v@ == next)
    &&& (e.complete is Some <==> (next != current && current.len() < max && next.len() == max))
}

/// The value callbacks to call when the value goes from `current_value` to
/// `next_value` (see [`spec_value_effects`]).
pub fn apply_value_change(current_value: &str, next_value: &str, max: usize) -> (e: ValueEffects)
    ensures
        spec_value_effects(e, current_value@, next_value@, max as nat),
{
    let current_chars = chars_of(current_value);
    let next_chars = chars_of(next_value);
    let old_len = current_chars.len();
    let len = next_chars.len();
    let differs = !same_chars(&next_chars, &current_chars);
    if differs {
        let complete = if old_len < max && len == max {
            Some(string_from_chars(&next_chars))
        } else {
            None
        };
        ValueEffects { set_value: Some(string_from_chars(&next_chars)), complete }
    } else {
        ValueEffects { set_value: None, complete: None }
    }
}

/// The value and selection to write back into the native input.
#[derive(Debug, PartialEq, Eq)]
pub struct NativeSync {
    pub value: String,
    /// In UTF-16 offsets; the selection direction is always unset.
    pub selection: Range<usize>,
}

/// What the component must do after an `input` event.
#[derive(Debug, PartialEq, Eq)]
pub struct InputEffects {
    /// Rewrite the native input when it does not show the accepted value.
    pub sync: Option<NativeSync>,
    /// The value callbacks.
    pub value: ValueEffects,
}

/// The interaction state of a one-time-password input.
#[derive(Debug, PartialEq, Eq)]
pub struct OtpInputState {
    /// The native input has focus.
    pub is_focused: bool,
    /// The caret, as a character position.
    pub cursor: usize,
    /// The selected characters, if any.
    pub selection_range: Option<Range<usize>>,
    pub selection_direction: SelectionDirection,
    /// A pointer drag over the slots is under way.
    pub selecting_with_pointer: bool,
    /// The slot the pointer drag started on.
    pub pointer_selection_anchor_slot: Option<usize>,
    /// The next focus event comes from a pointer press and must keep the
    /// caret where the press put it.
    pub pointer_focus_pending: bool,
}

/// The selection clamped to a value of `len` characters, when non-empty.
pub open spec fn spec_clamped_selection(selection: Option<Range<usize>>, len: nat) -> Option<Range<usize>> {
    match selection {
        Some(r) => spec_selection_range_for(r.start as nat, r.end as nat, len),
        None => None,
    }
}

impl OtpInputState {
    /// No focus, caret at the start, no selection, no drag.
    pub open spec fn spec_initial() -> Self {
        OtpInputState {
            is_focused: false,
            cursor: 0,
            selection_range: None,
            selection_direction: SelectionDirection::Unset,
            selecting_with_pointer: false,
            pointer_selection_anchor_slot: None,
            pointer_focus_pending: false,
        }
    }

    /// The selected slots: none while unfocused, otherwise the selection
    /// clamped to the value.
    pub open spec fn spec_selected_range(self, len: nat) -> Option<Range<usize>> {
        if !self.is_focused {
            None
        } else {
            spec_clamped_selection(self.selection_range, len)
        }
    }

    /// The slot marked active: none while unfocused or while slots are
    /// selected, otherwise the slot under the caret.
    pub open spec fn spec_active_index(self, len: nat, max: nat) -> Option<usize> {
        if !self.is_focused || self.spec_selected_range(len) is Some {
            None
        } else {
            spec_active_slot_index(self.cursor as nat, len, max)
        }
    }

    /// The selection the native input should show, in UTF-16 offsets (see
    /// [`Self::native_selection`]).
    pub open spec fn spec_native_selection(self, value: Seq<char>) -> Range<usize> {
        match spec_clamped_selection(self.selection_range, value.len()) {
            Some(s) => Range {
                start: spec_utf16_offset(value, s.start as nat) as usize,
                end: spec_utf16_offset(value, s.end as nat) as usize,
            },
            None => {
                let c = min_nat(self.cursor as nat, value.len());
                Range { start: spec_utf16_offset(value, c) as usize, end: spec_utf16_offset(value, c) as usize }
            },
        }
    }

    /// The state after the native input reports the selection
    /// `start..end` (UTF-16 offsets) over `value` (see
    /// [`Self::read_native_selection`]).
    pub open spec fn spec_read_native_selection(
        self,
        value: Seq<char>,
        start_utf16: int,
        end_utf16: int,
        direction: SelectionDirection,
    ) -> Self {
        let start = utf16_char_index(value, start_utf16) as usize;
        let end = utf16_char_index(value, end_utf16) as usize;
        if start == end {
            OtpInputState { cursor: start, selection_range: None, selection_direction: SelectionDirection::Unset, ..self }
        } else {
            OtpInputState {
                cursor: if direction == SelectionDirection::Backward { start } else { end },
                selection_range: Some(Range { start, end }),
                selection_direction: direction,
                ..self
            }
        }
    }

    /// The initial state.
    pub fn new() -> (s: Self)
        ensures
            forall|len: nat| #[trigger] spec_state_consistent(s, len),
            s == Self::spec_initial(),
    {
        OtpInputState {
            is_focused: false,
            cursor: 0,
            selection_range: None,
            selection_direction: SelectionDirection::Unset,
            selecting_with_pointer: false,
            pointer_selection_anchor_slot: None,
            pointer_focus_pending: false,
        }
    }

    /// A copy of the selection.
    fn selection(&self) -> (r: Option<Range<usize>>)
        ensures
            r == self.selection_range,
    {
        match &self.selection_range {
            Some(r) => Some(r.start..r.end),
            None => None,
        }
    }

    /// The selection clamped to a value of `len` characters.
    fn clamped_selection(&self, len: usize) -> (r: Option<Range<usize>>)
        ensures
            r == spec_clamped_selection(self.selection_range, len as nat),
    {
        match &self.selection_range {
            Some(r) => selection_range_for(r.start, r.end, len),
            None => None,
        }
    }

    /// The selected slots (see [`Self::spec_selected_range`]).
    pub fn selected_range(&self, len: usize) -> (r: Option<Range<usize>>)
        ensures
            r == self.spec_selected_range(len as nat),
    {
        if !self.is_focused {
            return None;
        }
        self.clamped_selection(len)
    }

    /// The slot marked active (see [`Self::spec_active_index`]).
    pub fn active_index(&self, len: usize, max: usize) -> (r: Option<usize>)
        ensures
            r == self.spec_active_index(len as nat, max as nat),
    {
        if !self.is_focused {
            return None;
        }
        if self.selected_range(len).is_some() {
            return None;
        }
        active_slot_index(self.cursor, len, max)
    }

    /// The selection the native input should show, in UTF-16 offsets: the
    /// clamped selection when there is one, otherwise the caret clamped to
    /// the value.
    pub fn native_selection(&self, value: &str) -> (r: Range<usize>)
        ensures
            r == self.spec_native_selection(value@),
    {
        let len = chars_of(value).len();
        let (start, end) = match self.clamped_selection(len) {
            Some(r) => (r.start, r.end),
            None => {
                let c = if self.cursor < len { self.cursor } else { len };
                (c, c)
            },
        };
        utf16_offset_for_char(value, start)..utf16_offset_for_char(value, end)
    }

    /// A pointer press on the slot `index` of a value of `len` characters:
    /// unless disabled, the input takes focus with the caret after that slot
    /// and a drag starts from it (from nowhere when the slot is empty).
    /// Returns whether the native input must be focused.
    pub fn begin_slot_selection(&mut self, index: usize, len: usize, disabled: bool) -> (focus: bool)
        ensures
            spec_state_consistent(*old(self), len as nat) ==> spec_state_consistent(*final(self), len as nat),
            focus == !disabled,
            disabled ==> *final(self) == *old(self),
            !disabled ==> *final(self) == (OtpInputState {
                is_focused: true,
                cursor: min_nat((index + 1) as nat, len as nat) as usize,
                selection_range: None,
                selection_direction: SelectionDirection::Unset,
                selecting_with_pointer: true,
                pointer_selection_anchor_slot: if index < len { Some(index) } else { None },
                pointer_focus_pending: true,
            }),
    {
        if disabled {
            return false;
        }
        self.is_focused = true;
        self.cursor = if index < len { index + 1 } else { len };
        self.selection_range = None;
        self.selection_direction = SelectionDirection::Unset;
        self.pointer_selection_anchor_slot = if index < len { Some(index) } else { None };
        self.selecting_with_pointer = true;
        self.pointer_focus_pending = true;
        true
    }

    /// The pointer drag reaches the slot `index`: while a drag that started
    /// on a filled slot is under way (and the input is enabled), the slots
    /// between the two are selected and the caret follows the drag.
    pub fn extend_slot_selection(&mut self, index: usize, len: usize, disabled: bool)
        ensures
            spec_state_consistent(*old(self), len as nat) ==> spec_state_consistent(*final(self), len as nat),
            ({
                let s = *old(self);
                if !s.selecting_with_pointer || disabled || s.pointer_selection_anchor_slot is None {
                    *final(self) == s
                } else {
                    let anchor = s.pointer_selection_anchor_slot->0;
                    *final(self) == (OtpInputState {
                        cursor: spec_slot_selection_focus_cursor(anchor as nat, index as nat, len as nat) as usize,
                        selection_range: spec_slot_selection_range(anchor as nat, index as nat, len as nat),
                        selection_direction: if index < anchor {
                            SelectionDirection::Backward
                        } else {
                            SelectionDirection::Forward
                        },
                        ..s
                    })
                }
            }),
    {
        if !self.selecting_with_pointer || disabled {
            return;
        }
        let anchor_slot = match self.pointer_selection_anchor_slot {
            Some(a) => a,
            None => return,
        };
        let next_cursor = slot_selection_focus_cursor(anchor_slot, index, len);
        let direction = if index < anchor_slot {
            SelectionDirection::Backward
        } else {
            SelectionDirection::Forward
        };
        self.cursor = next_cursor;
        self.selection_range = slot_selection_range(anchor_slot, index, len);
        self.selection_direction = direction;
    }

    /// The pointer drag ends, on the slot `index` if it ends on one: a press
    /// that selected nothing puts the caret at that slot; the drag is over.
    pub fn end_slot_selection(&mut self, index: Option<usize>, len: usize)
        ensures
            spec_state_consistent(*old(self), len as nat) ==> spec_state_consistent(*final(self), len as nat),
            ({
                let s = *old(self);
                let cursor = match index {
                    Some(i) => if s.selecting_with_pointer && s.selection_range is None {
                        min_nat(i as nat, len as nat) as usize
                    } else {
                        s.cursor
                    },
                    None => s.cursor,
                };
                *final(self) == (OtpInputState {
                    cursor,
                    selecting_with_pointer: false,
                    pointer_selection_anchor_slot: None,
                    ..s
                })
            }),
    {
        if let Some(i) = index {
            if self.selecting_with_pointer && self.selection_range.is_none() {
                self.cursor = if i < len { i } else { len };
            }
        }
        self.selecting_with_pointer = false;
        self.pointer_selection_anchor_slot = None;
    }

    /// A pointer press on the input outside the slots: unless disabled, the
    /// input takes focus with the caret at the end and nothing selected.
    /// Returns whether the native input must be focused.
    pub fn pointer_down(&mut self, len: usize, disabled: bool) -> (focus: bool)
        ensures
            spec_state_consistent(*old(self), len as nat) ==> spec_state_consistent(*final(self), len as nat),
            focus == !disabled,
            disabled ==> *final(self) == *old(self),
            !disabled ==> *final(self) == (OtpInputState {
                is_focused: true,
                cursor: len,
                selection_range: None,
                selection_direction: SelectionDirection::Unset,
                selecting_with_pointer: false,
                pointer_selection_anchor_slot: None,
                pointer_focus_pending: true,
            }),
    {
        if disabled {
            return false;
        }
        self.is_focused = true;
        self.cursor = len;
        self.selection_range = None;
        self.selection_direction = SelectionDirection::Unset;
        self.pointer_selection_anchor_slot = None;
        self.selecting_with_pointer = false;
        self.pointer_focus_pending = true;
        true
    }

    /// The pointer is released or leaves the input: any drag is over.
    pub fn pointer_up(&mut self)
        ensures
            forall|len: nat| spec_state_consistent(*old(self), len) ==> #[trigger] spec_state_consistent(*final(self), len),
            *final(self) == (OtpInputState {
                selecting_with_pointer: false,
                pointer_selection_anchor_slot: None,
                ..*old(self)
            }),
    {
        self.selecting_with_pointer = false;
        self.pointer_selection_anchor_slot = None;
    }

    /// The pointer interaction is cancelled: any drag is over and no focus
    /// event is expected from it.
    pub fn pointer_cancel(&mut self)
        ensures
            forall|len: nat| spec_state_consistent(*old(self), len) ==> #[trigger] spec_state_consistent(*final(self), len),
            *final(self) == (OtpInputState {
                selecting_with_pointer: false,
                pointer_selection_anchor_slot: None,
                pointer_focus_pending: false,
                ..*old(self)
            }),
    {
        self.selecting_with_pointer = false;
        self.pointer_selection_anchor_slot = None;
        self.pointer_focus_pending = false;
    }

    /// The native input gains focus. A focus caused by a pointer press keeps
    /// the caret where the press put it; otherwise, with no drag and no
    /// selection, the caret goes to the end of the value.
    pub fn focus(&mut self, len: usize)
        ensures
            spec_state_consistent(*old(self), len as nat) ==> spec_state_consistent(*final(self), len as nat),
            ({
                let s = *old(self);
                if s.pointer_focus_pending {
                    *final(self) == (OtpInputState { is_focused: true, pointer_focus_pending: false, ..s })
                } else if !s.selecting_with_pointer && s.selection_range is None {
                    *final(self) == (OtpInputState {
                        is_focused: true,
                        cursor: len,
                        selection_range: None,
                        selection_direction: SelectionDirection::Unset,
                        ..s
                    })
                } else {
                    *final(self) == (OtpInputState { is_focused: true, ..s })
                }
            }),
    {
        self.is_focused = true;
        if self.pointer_focus_pending {
            self.pointer_focus_pending = false;
            return;
        }
        if !self.selecting_with_pointer && self.selection_range.is_none() {
            self.cursor = len;
            self.selection_range = None;
            self.selection_direction = SelectionDirection::Unset;
        }
    }

    /// The native input loses focus: no focus, no drag, no selection; the
    /// caret stays.
    pub fn blur(&mut self)
        ensures
            forall|len: nat| spec_state_consistent(*old(self), len) ==> #[trigger] spec_state_consistent(*final(self), len),
            *final(self) == (OtpInputState {
                is_focused: false,
                cursor: old(self).cursor,
                selection_range: None,
                selection_direction: SelectionDirection::Unset,
                selecting_with_pointer: false,
                pointer_selection_anchor_slot: None,
                pointer_focus_pending: false,
            }),
    {
        self.is_focused = false;
        self.selecting_with_pointer = false;
        self.pointer_selection_anchor_slot = None;
        self.selection_range = None;
        self.selection_direction = SelectionDirection::Unset;
        self.pointer_focus_pending = false;
    }

    /// The native input reports its selection, in UTF-16 offsets, over
    /// `value`. A collapsed selection is a caret; otherwise the selection is
    /// kept, with the caret at its start when it runs backwards and at its
    /// end otherwise.
    pub fn read_native_selection(
        &mut self,
        value: &str,
        start_utf16: usize,
        end_utf16: usize,
        direction: SelectionDirection,
    )
        ensures
            spec_state_consistent(*old(self), value@.len()) && start_utf16 <= end_utf16 ==> spec_state_consistent(*final(self), value@.len()),
            *final(self) == old(self).spec_read_native_selection(value@, start_utf16 as int, end_utf16 as int, direction),
    {
        let start_char = char_index_for_utf16(value, start_utf16);
        let end_char = char_index_for_utf16(value, end_utf16);
        proof {
            if start_utf16 <= end_utf16 {
                lemma_utf16_char_index_monotone(value@, start_utf16 as int, end_utf16 as int);
            }
        }
        if start_char == end_char {
            self.cursor = start_char;
            self.selection_range = None;
            self.selection_direction = SelectionDirection::Unset;
        } else {
            let focus = match direction {
                SelectionDirection::Backward => start_char,
                _ => end_char,
            };
            self.cursor = focus;
            self.selection_range = Some(start_char..end_char);
            self.selection_direction = direction;
        }
    }

    /// The edit an `input` event makes: the raw value applied to the current
    /// value with the caret (clamped to the value) and the selection.
    pub fn input_change(&self, current_value: &str, raw_value: &str, max: usize) -> (change: InputValueChange)
        ensures
            ({
                let c = min_nat(self.cursor as nat, current_value@.len());
                &&& change.value@ == spec_input_change(current_value@, raw_value@, max as nat, c, self.selection_range).0
                &&& change.cursor == spec_input_change(current_value@, raw_value@, max as nat, c, self.selection_range).1
                &&& change.changed == spec_input_changed(current_value@, raw_value@, max as nat, c, self.selection_range)
            }),
    {
        let len = chars_of(current_value).len();
        let c = if self.cursor < len { self.cursor } else { len };
        InputValueChange::from_raw_input(current_value, raw_value, max, c, self.selection())
    }

    /// Whether the entry made by an `input` event goes to the validator:
    /// when it changes the value and is not what `Backspace` or `Delete`
    /// would make of the value given the caret and selection (those bypass
    /// the validator; see [`spec_is_deletion`]).
    pub fn needs_validation(&self, current_value: &str, raw_value: &str, max: usize) -> (v: bool)
        ensures
            v == self.spec_needs_validation(current_value@, raw_value@, max as nat),
    {
        let change = self.input_change(current_value, raw_value, max);
        if !change.changed {
            return false;
        }
        let current_chars = chars_of(current_value);
        let next_chars = chars_of(change.value.as_str());
        !is_deletion(&current_chars, &next_chars, self.cursor, self.selection())
    }

    /// See [`Self::needs_validation`].
    pub open spec fn spec_needs_validation(self, current: Seq<char>, raw: Seq<char>, max: nat) -> bool {
        let c = min_nat(self.cursor as nat, current.len());
        &&& spec_input_changed(current, raw, max, c, self.selection_range)
        &&& !spec_is_deletion(
            current,
            spec_input_change(current, raw, max, c, self.selection_range).0,
            self.cursor as nat,
            self.selection_range,
        )
    }

    /// An `input` event, after the validator (if any) has judged the entry:
    /// `rejected` is whether it refused it.
    ///
    /// A refused entry that needed validation leaves the value as it was:
    /// the native input is rewritten with the current value and the
    /// selection (or the caret) it had. Otherwise the edit is applied: the
    /// native input is rewritten when it does not show the new value (with
    /// the caret at the new position), the value callbacks are due, and the
    /// caret moves with no selection and no drag left.
    pub fn commit_input(&mut self, current_value: &str, raw_value: &str, max: usize, rejected: bool) -> (e: InputEffects)
        ensures
            spec_state_consistent(*old(self), current_value@.len()) ==> spec_state_consistent(
                *final(self),
                if old(self).spec_needs_validation(current_value@, raw_value@, max as nat) && rejected {
                    current_value@.len()
                } else {
                    spec_input_change(
                        current_value@,
                        raw_value@,
                        max as nat,
                        min_nat(old(self).cursor as nat, current_value@.len()),
                        old(self).selection_range,
                    ).0.len()
                },
            ),
            ({
                let s = *old(self);
                let current = current_value@;
                let c = min_nat(s.cursor as nat, current.len());
                let next = spec_input_change(current, raw_value@, max as nat, c, s.selection_range);
                if s.spec_needs_validation(current, raw_value@, max as nat) && rejected {
                    &&& *final(self) == (OtpInputState { cursor: c as usize, ..s })
                    &&& e.sync matches Some(sync) && sync.value@ == current && sync.selection == match s.selection_range {
                        Some(r) => Range {
                            start: spec_utf16_offset(current, r.start as nat) as usize,
                            end: spec_utf16_offset(current, r.end as nat) as usize,
                        },
                        None => Range {
                            start: spec_utf16_offset(current, c) as usize,
                            end: spec_utf16_offset(current, c) as usize,
                        },
                    }
                    &&& e.value.set_value is None && e.value.complete is None
                } else {
                    &&& *final(self) == (OtpInputState {
                        cursor: next.1 as usize,
                        selection_range: None,
                        selection_direction: SelectionDirection::Unset,
                        selecting_with_pointer: false,
                        pointer_selection_anchor_slot: None,
                        ..s
                    })
                    &&& (e.sync is Some <==> raw_value@ != next.0)
                    &&& (e.sync matches Some(sync) ==> sync.value@ == next.0 && sync.selection == Range {
                        start: spec_utf16_offset(next.0, next.1) as usize,
                        end: spec_utf16_offset(next.0, next.1) as usize,
                    })
                    &&& spec_value_effects(e.value, current, next.0, max as nat)
                }
            }),
            e.value.set_value matches Some(v) ==> v@.len() <= max,
    {
        let len = chars_of(current_value).len();
        let c = if self.cursor < len { self.cursor } else { len };
        proof {
            lemma_input_change_bounds(current_value@, raw_value@, max as nat, c as nat, self.selection_range);
        }
        let needs_validation = self.needs_validation(current_value, raw_value, max);
        let change = self.input_change(current_value, raw_value, max);
        if needs_validation && rejected {
            let selection = match &self.selection_range {
                Some(r) => utf16_offset_for_char(current_value, r.start)..utf16_offset_for_char(current_value, r.end),
                None => {
                    let u = utf16_offset_for_char(current_value, c);
                    u..u
                },
            };
            self.cursor = c;
            let revert_value = string_from_chars(&chars_of(current_value));
            return InputEffects {
                sync: Some(NativeSync { value: revert_value, selection }),
                value: ValueEffects { set_value: None, complete: None },
            };
        }
        let next_cursor = change.cursor;
        let next_value = change.value;
        let raw_chars = chars_of(raw_value);
        let next_chars = chars_of(next_value.as_str());
        let sync = if !same_chars(&raw_chars, &next_chars) {
            let u = utf16_offset_for_char(next_value.as_str(), next_cursor);
            Some(NativeSync { value: string_from_chars(&next_chars), selection: u..u })
        } else {
            None
        };
        let value = apply_value_change(current_value, next_value.as_str(), max);
        self.cursor = next_cursor;
        self.selection_range = None;
        self.selection_direction = SelectionDirection::Unset;
        self.pointer_selection_anchor_slot = None;
        self.selecting_with_pointer = false;
        InputEffects { sync, value }
    }
}

/// The selection and caret agree: with no selection, the caret lies within
/// the value and no direction is set; with one, it is a non-empty run of
/// the value and the caret sits at the end it was extended towards.
pub open spec fn spec_selection_consistent(s: OtpInputState, len: nat) -> bool {
    match s.selection_range {
        None => s.selection_direction == SelectionDirection::Unset && s.cursor <= len,
        Some(r) => r.start < r.end <= len && s.cursor == (if s.selection_direction == SelectionDirection::Backward {
            r.start
        } else {
            r.end
        }),
    }
}

/// The state agrees with a value of `len` characters: its selection and
/// caret agree (see [`spec_selection_consistent`]) and a pointer drag, if
/// any, started on a filled slot. Every handler keeps this, for the value
/// it is given, and the initial state has it.
pub open spec fn spec_state_consistent(s: OtpInputState, len: nat) -> bool {
    &&& spec_selection_consistent(s, len)
    &&& (s.pointer_selection_anchor_slot matches Some(a) ==> a < len)
}

/// Writing the selection into the native input and reading it back changes
/// nothing: the loop between the two settles at once. This holds of every
/// state the handlers reach, since they all keep [`spec_state_consistent`].
pub proof fn lemma_native_selection_round_trip(s: OtpInputState, value: Seq<char>)
    requires
        utf16_width(value) <= usize::MAX,
        spec_selection_consistent(s, value.len()),
    ensures
        s.spec_read_native_selection(
            value,
            s.spec_native_selection(value).start as int,
            s.spec_native_selection(value).end as int,
            s.selection_direction,
        ) == s,
{
    match s.selection_range {
        Some(r) => {
            lemma_char_index_inverts_utf16_offset(value, r.start as nat);
            lemma_char_index_inverts_utf16_offset(value, r.end as nat);
            lemma_utf16_offset_fits(value, r.start as nat);
            lemma_utf16_offset_fits(value, r.end as nat);
        },
        None => {
            lemma_char_index_inverts_utf16_offset(value, s.cursor as nat);
            lemma_utf16_offset_fits(value, s.cursor as nat);
        },
    }
}

/// An unfocused input shows neither selected slots nor an active slot.
pub proof fn lemma_unfocused_shows_nothing(s: OtpInputState, len: nat, max: nat)
    requires
        !s.is_focused,
    ensures
        s.spec_selected_range(len) is None,
        s.spec_active_index(len, max) is None,
{
}

/// A slot is never marked active while slots are selected, and the active
/// slot is always one of the `max` slots.
pub proof fn lemma_active_excludes_selection(s: OtpInputState, len: nat, max: nat)
    ensures
        s.spec_active_index(len, max) is Some ==> s.spec_selected_range(len) is None,
        s.spec_active_index(len, max) matches Some(i) ==> i < max,
{
}

/// `Backspace` and `Delete` always shrink the value and bypass the
/// validator.
pub proof fn lemma_deletion_bypasses_validation(s: OtpInputState, current: Seq<char>, raw: Seq<char>, max: nat)
    ensures
        ({
            let c = min_nat(s.cursor as nat, current.len());
            let next = spec_input_change(current, raw, max, c, s.selection_range).0;
            spec_is_deletion(current, next, s.cursor as nat, s.selection_range) ==> next.len() < current.len()
                && !s.spec_needs_validation(current, raw, max)
        }),
{
}

/// Typing over a selection is an entry, not a deletion: when it changes the
/// value it goes to the validator.
pub proof fn lemma_typing_over_selection_is_validated(
    s: OtpInputState,
    current: Seq<char>,
    inserted: Seq<char>,
    max: nat,
)
    requires
        spec_clamped_selection(s.selection_range, current.len()) is Some,
        inserted.len() > 0,
        ({
            let r = spec_clamped_selection(s.selection_range, current.len())->0;
            let raw = current.take(r.start as int) + inserted + current.skip(r.end as int);
            raw.len() <= max && raw != current
        }),
    ensures
        ({
            let r = spec_clamped_selection(s.selection_range, current.len())->0;
            let raw = current.take(r.start as int) + inserted + current.skip(r.end as int);
            s.spec_needs_validation(current, raw, max)
        }),
{
    let r = spec_clamped_selection(s.selection_range, current.len())->0;
    let raw = current.take(r.start as int) + inserted + current.skip(r.end as int);
    assert(raw.take(min_nat(max, raw.len()) as int) =~= raw);
}


/// Every entry that changes the value without shrinking it goes to the
/// validator: `Backspace`, `Delete` and deleting a selection always shrink
/// the value, and only they bypass it.
pub proof fn lemma_non_shrinking_change_needs_validation(s: OtpInputState, current: Seq<char>, raw: Seq<char>, max: nat)
    ensures
        ({
            let c = min_nat(s.cursor as nat, current.len());
            let next = spec_input_change(current, raw, max, c, s.selection_range).0;
            next != current && next.len() >= current.len() ==> s.spec_needs_validation(current, raw, max)
        }),
{
    let c = min_nat(s.cursor as nat, current.len());
    let next = spec_input_change(current, raw, max, c, s.selection_range).0;
    if next != current && next.len() >= current.len() {
        if max == 0 {
            assert(current =~= next);
        }
        match spec_clamped_selection(s.selection_range, current.len()) {
            Some(r) => {
                if spec_removes(current, next, r.start as int, r.end as int) {
                    assert(next.len() < current.len());
                }
            },
            None => {
                let k = min_nat(s.cursor as nat, current.len()) as int;
                if spec_removes(current, next, k - 1, k) {
                    assert(next.len() < current.len());
                }
                if spec_removes(current, next, k, k + 1) {
                    assert(next.len() < current.len());
                }
            },
        }
    }
}

/// Only deletions bypass the validator: an entry that changes the value goes
/// to the validator unless the new value is the current one with exactly the
/// selected characters removed (with a non-empty selection), or with exactly
/// the character before or the character at the caret removed (without one),
/// whether the value grew, kept its length or shrank.
pub proof fn lemma_only_deletions_bypass_validation(s: OtpInputState, current: Seq<char>, raw: Seq<char>, max: nat)
    requires
        max > 0,
    ensures
        ({
            let c = min_nat(s.cursor as nat, current.len()) as int;
            let next = spec_input_change(current, raw, max, c as nat, s.selection_range).0;
            let removed_selection = match spec_clamped_selection(s.selection_range, current.len()) {
                Some(r) => next == current.take(r.start as int) + current.skip(r.end as int),
                None => false,
            };
            let removed_at_caret = spec_clamped_selection(s.selection_range, current.len()) is None && (
                (0 < c && next == current.take(c - 1) + current.skip(c))
                || (c < current.len() && next == current.take(c) + current.skip(c + 1)));
            next != current && !removed_selection && !removed_at_caret ==> s.spec_needs_validation(current, raw, max)
        }),
{
    let c = min_nat(s.cursor as nat, current.len()) as int;
    let next = spec_input_change(current, raw, max, c as nat, s.selection_range).0;
    match spec_clamped_selection(s.selection_range, current.len()) {
        Some(r) => {
            if spec_removes(current, next, r.start as int, r.end as int) {
                assert(next == current.take(r.start as int) + current.skip(r.end as int));
            }
        },
        None => {
            if spec_removes(current, next, c - 1, c) {
                assert(next == current.take(c - 1) + current.skip(c));
            }
            if spec_removes(current, next, c, c + 1) {
                assert(next == current.take(c) + current.skip(c + 1));
            }
        },
    }
}

/// With no selection, typing a character over a filled slot, in a value
/// with room left, replaces the character under the caret; when that
/// changes the character, the entry goes to the validator.
pub proof fn lemma_overwriting_a_slot_needs_validation(s: OtpInputState, current: Seq<char>, c: usize, ch: char, max: usize)
    requires
        s.selection_range is None,
        s.cursor == c,
        c < current.len() < max,
        ch != current[c as int],
    ensures
        ({
            let raw = current.take(c as int) + seq![ch] + current.skip(c as int);
            &&& spec_input_change(current, raw, max as nat, c as nat, None).0 == current.update(c as int, ch)
            &&& s.spec_needs_validation(current, raw, max as nat)
        }),
{
    let raw = current.take(c as int) + seq![ch] + current.skip(c as int);
    lemma_typing_over_slot_replaces_it(current, c as nat, ch, max as nat, None);
    assert(current.update(c as int, ch)[c as int] != current[c as int]);
    lemma_non_shrinking_change_needs_validation(s, current, raw, max as nat);
}

/// Completion is reported only together with the new value, and only when
/// the value goes from fewer than `max` characters to exactly `max`; a
/// value that does not change reports nothing.
pub proof fn lemma_completion_comes_with_the_value(e: ValueEffects, current: Seq<char>, next: Seq<char>, max: nat)
    requires
        spec_value_effects(e, current, next, max),
    ensures
        e.complete is Some ==> e.set_value is Some && e.set_value->0@ == e.complete->0@ && current.len() < max
            && next.len() == max,
        next == current ==> e.set_value is None && e.complete is None,
        next != current ==> (e.set_value matches Some(v) && v@ == next),
{
}

/// While focused, a non-empty selection inside the value is shown as
/// selected slots and no slot is active; with no selection, the slot under
/// the caret is active.
pub proof fn lemma_focused_marks(s: OtpInputState, len: usize, max: usize)
    requires
        s.is_focused,
    ensures
        s.selection_range is Some && s.selection_range->0.start < s.selection_range->0.end <= len
            ==> s.spec_selected_range(len as nat) == s.selection_range && s.spec_active_index(len as nat, max as nat) is None,
        s.selection_range is None && s.cursor <= len && s.cursor < max ==> s.spec_selected_range(len as nat) is None
            && s.spec_active_index(len as nat, max as nat) == Some(s.cursor),
{
}


/// `Backspace`, `Delete` and deleting a selection bypass the validator:
/// when the raw value is the current one with the character before the
/// caret, the character at the caret, or the selected characters removed,
/// the entry does not go to the validator.
pub proof fn lemma_deletions_bypass_validation(s: OtpInputState, current: Seq<char>, a: usize, b: usize, max: usize)
    requires
        a < b <= current.len() <= max,
        match spec_clamped_selection(s.selection_range, current.len()) {
            Some(r) => r.start == a && r.end == b,
            None => b == a + 1 && (s.cursor == b || s.cursor == a),
        },
    ensures
        !s.spec_needs_validation(current, current.take(a as int) + current.skip(b as int), max as nat),
{
    let raw = current.take(a as int) + current.skip(b as int);
    let c = min_nat(s.cursor as nat, current.len());
    assert(raw.take(raw.len() as int) =~= raw);
    let next = spec_input_change(current, raw, max as nat, c, s.selection_range).0;
    assert(spec_inserted_at(current, raw, c) is None);
    assert(next == raw);
}

} // verus!
