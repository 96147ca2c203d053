//! How a one-time-password input turns what the browser reports after an
//! `input` event (the raw value of the hidden `<input>`) into the next value
//! and caret position, given the value before the event, the maximum length,
//! the caret and the selection.

use std::ops::Range;
use vstd::prelude::*;

use crate::text::{
    chars_of, common_prefix, common_prefix_len, lemma_common_prefix_len,
    lemma_common_prefix_len_characterized, string_from_chars,
};

verus! {

/// The smaller of two naturals.
pub open spec fn min_nat(a: nat, b: nat) -> nat {
    if a <= b {
        a
    } else {
        b
    }
}

/// The larger of two naturals.
pub open spec fn max_nat(a: nat, b: nat) -> nat {
    if a >= b {
        a
    } else {
        b
    }
}

/// The number of positions a range covers (none when `start >= end`).
pub open spec fn range_len(r: Range<usize>) -> nat {
    if r.start < r.end {
        (r.end - r.start) as nat
    } else {
        0
    }
}

/// The range between `anchor` and `focus`, in either order, clamped to
/// `len`; `None` when it is empty.
pub open spec fn spec_selection_range_for(anchor: nat, focus: nat, len: nat) -> Option<Range<usize>> {
    let start = min_nat(min_nat(anchor, focus), len);
    let end = min_nat(max_nat(anchor, focus), len);
    if start < end {
        Some(Range { start: start as usize, end: end as usize })
    } else {
        None
    }
}

/// The part of the current value that an entry at the caret replaces.
///
/// With a selection, the selection clamped to `len`. Without one, nothing
/// (an insertion at the caret) when the value is empty or the caret is at
/// the end of a value that is not full; otherwise the character under the
/// caret, or the last character when the caret is at the end.
pub open spec fn spec_edit_range(cursor: nat, len: nat, max: nat, selected: Option<Range<usize>>) -> Range<usize> {
    match selected {
        Some(r) => Range {
            start: min_nat(r.start as nat, len) as usize,
            end: min_nat(r.end as nat, len) as usize,
        },
        None => {
            let c = min_nat(cursor, len);
            if len == 0 || (c == len && len < max) {
                Range { start: c as usize, end: c as usize }
            } else {
                let start = min_nat(c, (len - 1) as nat);
                Range { start: start as usize, end: min_nat(start + 1, len) as usize }
            }
        },
    }
}

/// The characters inserted at `cursor` when `raw` is `current` with a
/// non-empty run of characters added at that position; `None` otherwise.
pub open spec fn spec_inserted_at(current: Seq<char>, raw: Seq<char>, cursor: nat) -> Option<Seq<char>> {
    let k = raw.len() - current.len();
    if raw.len() > current.len() && cursor <= current.len() && raw.take(cursor as int)
        == current.take(cursor as int) && raw.skip(cursor + k) == current.skip(cursor as int) {
        Some(raw.subrange(cursor as int, cursor + k))
    } else {
        None
    }
}

/// Where the caret lands when the raw value is taken as it is.
///
/// When the raw value is at least as long as the current value without the
/// replaced range, the caret follows the entered characters from the start
/// of the range; otherwise (a deletion) it stays at the end of the common
/// prefix of the two values.
pub open spec fn spec_raw_value_cursor(current: Seq<char>, next: Seq<char>, range: Range<usize>, current_len: nat) -> nat {
    let base: int = if current_len >= range_len(range) {
        current_len - range_len(range)
    } else {
        0
    };
    if next.len() >= base {
        min_nat((range.start + (next.len() - base)) as nat, next.len())
    } else {
        common_prefix_len(current, next)
    }
}

/// Typing one character at the end of a full value, with no selection: the
/// native input grows past `max` by exactly that character.
pub open spec fn spec_types_past_end(
    current: Seq<char>,
    raw: Seq<char>,
    max: nat,
    cursor: nat,
    selected: Option<Range<usize>>,
) -> bool {
    &&& selected is None
    &&& current.len() == max
    &&& raw.len() == current.len() + 1
    &&& min_nat(cursor, current.len()) == max
    &&& raw.take(max as int) == current
}

/// The next value and caret after an `input` event.
///
/// - With no room at all (`max == 0`) the value is empty and the caret at 0.
/// - Typing one character at the end of a full value, with no selection,
///   overwrites the last character.
/// - Without a selection, when the raw value is the current value with
///   characters inserted at the caret and the edit range is not empty, the
///   inserted characters replace the edit range and the result is cut to
///   `max`.
/// - Otherwise the raw value, cut to `max`, is taken as it is.
pub open spec fn spec_input_change(
    current: Seq<char>,
    raw: Seq<char>,
    max: nat,
    cursor: nat,
    selected: Option<Range<usize>>,
) -> (Seq<char>, nat) {
    if max == 0 {
        (Seq::empty(), 0)
    } else {
        let c = min_nat(cursor, current.len());
        if spec_types_past_end(current, raw, max, cursor, selected) {
            (current.update(max - 1, raw[max as int]), max)
        } else {
            let raw_cut = raw.take(min_nat(max, raw.len()) as int);
            let range = spec_edit_range(c, current.len(), max, selected);
            let inserted = spec_inserted_at(current, raw_cut, c);
            if selected is None && range_len(range) > 0 && inserted is Some {
                let ins = inserted->0;
                let replaced = current.take(range.start as int) + ins + current.skip(range.end as int);
                let cut = replaced.take(min_nat(max, replaced.len()) as int);
                (cut, min_nat((range.start + ins.len()) as nat, cut.len()))
            } else {
                (raw_cut, spec_raw_value_cursor(current, raw_cut, range, current.len()))
            }
        }
    }
}

/// Whether the input event is reported as a change: always when a character
/// is typed past the end of a full value, otherwise when the next value
/// differs from the current one; never when `max` is 0.
pub open spec fn spec_input_changed(
    current: Seq<char>,
    raw: Seq<char>,
    max: nat,
    cursor: nat,
    selected: Option<Range<usize>>,
) -> bool {
    max != 0 && (spec_types_past_end(current, raw, max, cursor, selected) || spec_input_change(
        current,
        raw,
        max,
        cursor,
        selected,
    ).0 != current)
}

/// The range between `anchor` and `focus`, in either order, clamped to
/// `len`; `None` when it is empty.
pub fn selection_range_for(anchor: usize, focus: usize, len: usize) -> (r: Option<Range<usize>>)
    ensures
        r == spec_selection_range_for(anchor as nat, focus as nat, len as nat),
        r matches Some(range) ==> range.start < range.end <= len,
{
    let lo = if anchor < focus { anchor } else { focus };
    let hi = if anchor < focus { focus } else { anchor };
    let start = if lo < len { lo } else { len };
    let end = if hi < len { hi } else { len };
    if start < end {
        Some(start..end)
    } else {
        None
    }
}

/// The part of the current value that an entry at the caret replaces (see
/// [`spec_edit_range`]).
pub fn edit_range_for_entry(
    cursor: usize,
    len: usize,
    max: usize,
    selected_range: Option<Range<usize>>,
) -> (r: Range<usize>)
    ensures
        r == spec_edit_range(cursor as nat, len as nat, max as nat, selected_range),
        r.start <= len,
        r.end <= len,
        selected_range is None ==> r.start <= r.end,
{
    if let Some(range) = selected_range {
        let start = if range.start < len { range.start } else { len };
        let end = if range.end < len { range.end } else { len };
        return start..end;
    }
    let cursor = if cursor < len { cursor } else { len };
    if len == 0 || cursor == len && len < max {
        cursor..cursor
    } else {
        let start = if cursor < len - 1 { cursor } else { len - 1 };
        let end = if start + 1 < len { start + 1 } else { len };
        start..end
    }
}

/// Whether `a[a_start..a_start + n]` and `b[b_start..b_start + n]` hold the
/// same characters.
pub(crate) fn same_run(a: &[char], a_start: usize, b: &[char], b_start: usize, n: usize) -> (same: bool)
    requires
        a_start + n <= a.len(),
        b_start + n <= b.len(),
    ensures
        same == (a@.subrange(a_start as int, a_start + n) == b@.subrange(b_start as int, b_start + n)),
{
    let mut i: usize = 0;
    while i < n
        invariant
            i <= n,
            a_start + n <= a.len(),
            b_start + n <= b.len(),
            a@.subrange(a_start as int, a_start + i) =~= b@.subrange(b_start as int, b_start + i),
        decreases n - i,
    {
        if a[a_start + i] != b[b_start + i] {
            assert(a@.subrange(a_start as int, a_start + n)[i as int] != b@.subrange(b_start as int, b_start + n)[i as int]);
            return false;
        }
        assert(a@.subrange(a_start as int, a_start + i + 1) =~= a@.subrange(a_start as int, a_start + i).push(a@[a_start + i]));
        assert(b@.subrange(b_start as int, b_start + i + 1) =~= b@.subrange(b_start as int, b_start + i).push(b@[b_start + i]));
        i = i + 1;
    }
    true
}

/// The characters of `v[start..end]` as a vector.
fn copy_run(v: &[char], start: usize, end: usize) -> (out: Vec<char>)
    requires
        start <= end <= v@.len(),
    ensures
        out@ == v@.subrange(start as int, end as int),
{
    let mut out: Vec<char> = Vec::new();
    let mut i = start;
    while i < end
        invariant
            start <= i <= end,
            end <= v@.len(),
            out@ == v@.subrange(start as int, i as int),
        decreases end - i,
    {
        out.push(v[i]);
        assert(v@.subrange(start as int, i as int).push(v@[i as int]) =~= v@.subrange(start as int, i + 1));
        i = i + 1;
    }
    out
}

/// Whether two character sequences are equal.
pub(crate) fn same_chars(a: &[char], b: &[char]) -> (same: bool)
    ensures
        same == (a@ == b@),
{
    if a.len() != b.len() {
        return false;
    }
    let same = same_run(a, 0, b, 0, a.len());
    assert(a@.subrange(0, a@.len() as int) =~= a@);
    assert(b@.subrange(0, b@.len() as int) =~= b@);
    same
}

/// The characters inserted at `cursor` when `raw_chars` is `current_chars`
/// with a non-empty run added at that position; `None` otherwise.
pub fn inserted_chars_at_cursor(current_chars: &[char], raw_chars: &[char], cursor: usize) -> (r: Option<Vec<char>>)
    ensures
        r matches Some(v) ==> spec_inserted_at(current_chars@, raw_chars@, cursor as nat) == Some(v@),
        r is None ==> spec_inserted_at(current_chars@, raw_chars@, cursor as nat) is None,
{
    let cur_len = current_chars.len();
    let raw_len = raw_chars.len();
    if raw_len <= cur_len || cursor > cur_len {
        return None;
    }
    let inserted_len = raw_len - cur_len;
    let prefix_same = same_run(raw_chars, 0, current_chars, 0, cursor);
    let suffix_same = same_run(raw_chars, cursor + inserted_len, current_chars, cursor, cur_len - cursor);
    proof {
        assert(raw_chars@.subrange(0, cursor as int) =~= raw_chars@.take(cursor as int));
        assert(current_chars@.subrange(0, cursor as int) =~= current_chars@.take(cursor as int));
        assert(raw_chars@.subrange(cursor + inserted_len, raw_len as int) =~= raw_chars@.skip(cursor + inserted_len));
        assert(current_chars@.subrange(cursor as int, cur_len as int) =~= current_chars@.skip(cursor as int));
    }
    if !prefix_same || !suffix_same {
        return None;
    }
    Some(copy_run(raw_chars, cursor, cursor + inserted_len))
}

/// Where the caret lands when the raw value is taken as it is (see
/// [`spec_raw_value_cursor`]).
pub fn raw_value_cursor(
    current_chars: &[char],
    next_chars: &[char],
    range: Range<usize>,
    current_len: usize,
) -> (c: usize)
    ensures
        c == spec_raw_value_cursor(current_chars@, next_chars@, range, current_len as nat),
{
    let replaced_len = if range.start < range.end { range.end - range.start } else { 0 };
    let base_len = if current_len >= replaced_len { current_len - replaced_len } else { 0 };
    let next_len = next_chars.len();
    if next_len >= base_len {
        let grown = next_len - base_len;
        if range.start >= next_len - grown {
            next_len
        } else {
            range.start + grown
        }
    } else {
        common_prefix(current_chars, next_chars)
    }
}

/// The outcome of an `input` event on a one-time-password input: the next
/// value, where the caret goes, and whether the value changed.
#[derive(Clone, Debug, PartialEq, Eq)]
pub struct InputValueChange {
    pub value: String,
    pub cursor: usize,
    pub changed: bool,
}

impl InputValueChange {
    /// Turns the raw value of the native input into the next value (see
    /// [`spec_input_change`]). The next value never holds more than `max`
    /// characters and the caret never lies past its end.
    pub fn from_raw_input(
        current_value: &str,
        raw_value: &str,
        max: usize,
        cursor: usize,
        selected_range: Option<Range<usize>>,
    ) -> (change: Self)
        ensures
            change.value@ == spec_input_change(current_value@, raw_value@, max as nat, cursor as nat, selected_range).0,
            change.cursor == spec_input_change(current_value@, raw_value@, max as nat, cursor as nat, selected_range).1,
            change.changed == spec_input_changed(current_value@, raw_value@, max as nat, cursor as nat, selected_range),
            change.value@.len() <= max,
            change.cursor <= change.value@.len(),
    {
        proof {
            lemma_input_change_bounds(current_value@, raw_value@, max as nat, cursor as nat, selected_range);
        }
        if max == 0 {
            return InputValueChange { value: String::new(), cursor: 0, changed: false };
        }
        let current_chars = chars_of(current_value);
        let raw_full = chars_of(raw_value);
        let current_len = current_chars.len();
        let c = if cursor < current_len { cursor } else { current_len };

        if selected_range.is_none() && current_len == max && raw_full.len() > current_len
            && raw_full.len() - current_len == 1 && c == max && same_run(&raw_full, 0, &current_chars, 0, max) {
            proof {
                assert(raw_full@.subrange(0, max as int) =~= raw_full@.take(max as int));
                assert(current_chars@.subrange(0, max as int) =~= current_chars@);
            }
            let mut next_chars = current_chars.clone();
            next_chars.set(max - 1, raw_full[max]);
            let next = string_from_chars(&next_chars);
            return InputValueChange { value: next, cursor: max, changed: true };
        }
        proof {
            if selected_range is None && current_len == max && raw_full@.len() == current_len + 1 && c == max {
                assert(raw_full@.subrange(0, max as int) =~= raw_full@.take(max as int));
                assert(current_chars@.subrange(0, max as int) =~= current_chars@);
            }
        }
        assert(!spec_types_past_end(current_value@, raw_value@, max as nat, cursor as nat, selected_range));
        let raw_take = if max < raw_full.len() { max } else { raw_full.len() };
        let raw_chars = copy_run(&raw_full, 0, raw_take);
        assert(raw_chars@ =~= raw_full@.take(raw_take as int));
        let no_selection = selected_range.is_none();
        let ghost selected = selected_range;
        let range = edit_range_for_entry(c, current_len, max, selected_range);
        let inserted = if no_selection && range.start < range.end {
            inserted_chars_at_cursor(&current_chars, &raw_chars, c)
        } else {
            None
        };
        let ghost expected = spec_input_change(current_value@, raw_value@, max as nat, cursor as nat, selected_range);
        assert(c as nat == min_nat(cursor as nat, current_value@.len()));
        assert(raw_chars@ == raw_value@.take(min_nat(max as nat, raw_value@.len()) as int));
        assert(range == spec_edit_range(c as nat, current_value@.len(), max as nat, selected));
        let (next_chars, next_cursor) = match inserted {
            Some(ins) => splice_inserted(&current_chars, range.start, range.end, &ins, max),
            None => {
                let next_cursor = raw_value_cursor(&current_chars, &raw_chars, range, current_len);
                (raw_chars, next_cursor)
            },
        };
        assert(next_chars@ == expected.0 && next_cursor == expected.1);
        let changed = !same_chars(&next_chars, &current_chars);
        let next = string_from_chars(&next_chars);
        InputValueChange { value: next, cursor: next_cursor, changed }
    }
}

/// `current` with `current[start..end]` replaced by `ins`, cut to `max`
/// characters, and the caret just after the inserted characters.
fn splice_inserted(current: &[char], start: usize, end: usize, ins: &[char], max: usize) -> (r: (Vec<char>, usize))
    requires
        start <= end <= current@.len(),
    ensures
        ({
            let replaced = current@.take(start as int) + ins@ + current@.skip(end as int);
            let cut = replaced.take(min_nat(max as nat, replaced.len()) as int);
            r.0@ == cut && r.1 == min_nat((start + ins@.len()) as nat, cut.len())
        }),
{
    let mut replaced = copy_run(current, 0, start);
    let mut i: usize = 0;
    while i < ins.len()
        invariant
            i <= ins@.len(),
            replaced@ == current@.take(start as int) + ins@.take(i as int),
        decreases ins@.len() - i,
    {
        replaced.push(ins[i]);
        assert(ins@.take(i as int).push(ins@[i as int]) =~= ins@.take(i + 1));
        i = i + 1;
    }
    assert(ins@.take(ins@.len() as int) =~= ins@);
    let n = current.len();
    let mut j = end;
    while j < n
        invariant
            start <= end <= j <= n,
            n == current@.len(),
            replaced@ == current@.take(start as int) + ins@ + current@.subrange(end as int, j as int),
        decreases n - j,
    {
        replaced.push(current[j]);
        assert(current@.subrange(end as int, j as int).push(current@[j as int]) =~= current@.subrange(end as int, j + 1));
        j = j + 1;
    }
    assert(current@.subrange(end as int, n as int) =~= current@.skip(end as int));
    let ghost whole = replaced@;
    let total = replaced.len();
    assert(whole.len() == start + ins@.len() + (n - end));
    assert(start + ins@.len() <= total);
    let grown = start + ins.len();
    replaced.truncate(max);
    assert(replaced@ =~= whole.take(min_nat(max as nat, whole.len()) as int));
    let c = if grown < replaced.len() { grown } else { replaced.len() };
    (replaced, c)
}

/// The next value never holds more than `max` characters and the caret
/// never lies past its end.
pub proof fn lemma_input_change_bounds(
    current: Seq<char>,
    raw: Seq<char>,
    max: nat,
    cursor: nat,
    selected: Option<Range<usize>>,
)
    ensures
        spec_input_change(current, raw, max, cursor, selected).0.len() <= max,
        spec_input_change(current, raw, max, cursor, selected).1 <= spec_input_change(current, raw, max, cursor, selected).0.len(),
{
    if max != 0 {
        let c = min_nat(cursor, current.len());
        let raw_cut = raw.take(min_nat(max, raw.len()) as int);
        let range = spec_edit_range(c, current.len(), max, selected);
        lemma_common_prefix_len(current, raw_cut);
    }
}

/// Re-reading a value the input already shows changes nothing: the value
/// stays and no change is reported.
pub proof fn lemma_unchanged_input_is_not_a_change(
    current: Seq<char>,
    max: nat,
    cursor: nat,
    selected: Option<Range<usize>>,
)
    requires
        0 < max,
        current.len() <= max,
    ensures
        spec_input_change(current, current, max, cursor, selected).0 == current,
        !spec_input_changed(current, current, max, cursor, selected),
{
    assert(current.take(current.len() as int) =~= current);
}

/// Typing a character with the caret at the end of a value that is not
/// full appends it and puts the caret after it.
pub proof fn lemma_typing_at_end_appends(current: Seq<char>, ch: char, max: nat, selected_none: Option<Range<usize>>)
    requires
        current.len() < max <= usize::MAX,
        selected_none is None,
    ensures
        spec_input_change(current, current.push(ch), max, current.len(), selected_none) == (current.push(ch), current.len() + 1),
        spec_input_changed(current, current.push(ch), max, current.len(), selected_none),
{
    let raw = current.push(ch);
    assert(raw.take(raw.len() as int) =~= raw);
    assert(raw != current) by {
        assert(raw.len() != current.len());
    }
}

/// Typing a character with the caret on a filled slot, when the value has
/// room for the native input to grow, replaces the character under the
/// caret and moves the caret to the next slot.
pub proof fn lemma_typing_over_slot_replaces_it(current: Seq<char>, c: nat, ch: char, max: nat, selected_none: Option<Range<usize>>)
    requires
        c < current.len(),
        current.len() < max <= usize::MAX,
        selected_none is None,
    ensures
        ({
            let raw = current.take(c as int) + seq![ch] + current.skip(c as int);
            spec_input_change(current, raw, max, c, selected_none) == (current.update(c as int, ch), c + 1)
        }),
{
    let raw = current.take(c as int) + seq![ch] + current.skip(c as int);
    assert(raw.take(min_nat(max, raw.len()) as int) =~= raw);
    assert(raw.take(c as int) =~= current.take(c as int));
    assert(raw.skip(c + 1 as int) =~= current.skip(c as int));
    assert(raw.subrange(c as int, c + 1 as int) =~= seq![ch]);
    let replaced = current.take(c as int) + seq![ch] + current.skip(c + 1 as int);
    assert(replaced =~= current.update(c as int, ch));
    assert(replaced.take(min_nat(max, replaced.len()) as int) =~= replaced);
}

/// Typing one character at the end of a full value overwrites its last
/// character; the caret stays at the end.
pub proof fn lemma_typing_past_end_overwrites_last(current: Seq<char>, ch: char, cursor: nat, selected_none: Option<Range<usize>>)
    requires
        current.len() > 0,
        cursor >= current.len(),
        selected_none is None,
    ensures
        spec_input_change(current, current.push(ch), current.len(), cursor, selected_none) == (
            current.update(current.len() - 1, ch),
            current.len(),
        ),
        spec_input_changed(current, current.push(ch), current.len(), cursor, selected_none),
{
    assert(current.push(ch).take(current.len() as int) =~= current);
}

/// `Backspace` with the caret at the end of the value removes the last
/// character and moves the caret back by one.
pub proof fn lemma_backspace_at_end_removes_last(current: Seq<char>, cursor: nat, max: nat, selected_none: Option<Range<usize>>)
    requires
        0 < current.len() <= max <= usize::MAX,
        cursor >= current.len(),
        selected_none is None,
    ensures
        spec_input_change(current, current.drop_last(), max, cursor, selected_none) == (
            current.drop_last(),
            (current.len() - 1) as nat,
        ),
        spec_input_changed(current, current.drop_last(), max, cursor, selected_none),
{
    let raw = current.drop_last();
    assert(raw.take(raw.len() as int) =~= raw);
    lemma_common_prefix_len_characterized(current, raw, raw.len() as int);
    assert(raw != current) by {
        assert(raw.len() != current.len());
    }
}


/// The selection range between two positions does not depend on which one
/// is the anchor; when both lie within the value it runs from the smaller
/// to the larger, and it is empty (`None`) exactly when they coincide.
pub proof fn lemma_selection_range_between(anchor: usize, focus: usize, len: usize)
    ensures
        spec_selection_range_for(anchor as nat, focus as nat, len as nat) == spec_selection_range_for(
            focus as nat,
            anchor as nat,
            len as nat,
        ),
        anchor < focus <= len ==> spec_selection_range_for(anchor as nat, focus as nat, len as nat) == Some(
            Range { start: anchor, end: focus },
        ),
        anchor <= len && focus <= len ==> (spec_selection_range_for(anchor as nat, focus as nat, len as nat) is None
            <==> anchor == focus),
        len <= anchor && len <= focus ==> spec_selection_range_for(anchor as nat, focus as nat, len as nat) is None,
{
}

/// What an entry replaces: the selection when there is one inside the
/// value; otherwise the character under the caret, nothing when the caret
/// is at the end of a value with room left, and the last character when the
/// caret is at the end of a full value.
pub proof fn lemma_edit_range_cases(
    cursor: usize,
    len: usize,
    max: usize,
    selected: Option<Range<usize>>,
)
    ensures
        selected is Some && selected->0.start <= selected->0.end <= len ==> spec_edit_range(cursor as nat, len as nat, max as nat, selected)
            == selected->0,
        selected is None && cursor < len ==> spec_edit_range(cursor as nat, len as nat, max as nat, selected)
            == (Range { start: cursor, end: (cursor + 1) as usize }),
        selected is None && len <= cursor && len < max ==> spec_edit_range(cursor as nat, len as nat, max as nat, selected)
            == (Range { start: len, end: len }),
        selected is None && len <= cursor && len == max && 0 < len ==> spec_edit_range(
            cursor as nat,
            len as nat,
            max as nat,
            selected,
        ) == (Range { start: (len - 1) as usize, end: len }),
{
}

/// The inserted characters found at the caret are exactly those whose
/// insertion there turns the current value into the raw one.
pub proof fn lemma_inserted_at_is_the_insertion(current: Seq<char>, raw: Seq<char>, cursor: nat, ins: Seq<char>)
    ensures
        spec_inserted_at(current, raw, cursor) == Some(ins) ==> ins.len() > 0 && cursor <= current.len() && raw
            == current.take(cursor as int) + ins + current.skip(cursor as int),
        ins.len() > 0 && cursor <= current.len() && raw == current.take(cursor as int) + ins + current.skip(
            cursor as int,
        ) ==> spec_inserted_at(current, raw, cursor) == Some(ins),
{
    if spec_inserted_at(current, raw, cursor) == Some(ins) {
        let k = raw.len() - current.len();
        assert(raw =~= raw.take(cursor as int) + raw.subrange(cursor as int, cursor + k) + raw.skip(cursor + k));
    }
    if ins.len() > 0 && cursor <= current.len() && raw == current.take(cursor as int) + ins + current.skip(cursor as int) {
        let k = raw.len() - current.len();
        assert(k == ins.len());
        assert(raw.take(cursor as int) =~= current.take(cursor as int));
        assert(raw.skip(cursor + k) =~= current.skip(cursor as int));
        assert(raw.subrange(cursor as int, cursor + k) =~= ins);
    }
}

/// Typing, pasting or deleting over a selection inside the value takes the
/// raw value (when it fits) and puts the caret just after what was entered
/// in place of the selection.
pub proof fn lemma_replacing_selection(current: Seq<char>, a: usize, b: usize, ins: Seq<char>, max: nat, cursor: nat)
    requires
        a < b <= current.len(),
        (current.take(a as int) + ins + current.skip(b as int)).len() <= max,
        0 < max,
    ensures
        ({
            let raw = current.take(a as int) + ins + current.skip(b as int);
            spec_input_change(current, raw, max, cursor, Some((Range { start: a, end: b }))) == (raw, (a + ins.len()) as nat)
        }),
{
    let raw = current.take(a as int) + ins + current.skip(b as int);
    assert(raw.take(raw.len() as int) =~= raw);
}

/// `Delete` with the caret on a character (and no selection) removes that
/// character and leaves the caret where it was.
pub proof fn lemma_delete_at_caret(current: Seq<char>, c: usize, max: nat)
    requires
        c < current.len() <= max <= usize::MAX,
    ensures
        ({
            let raw = current.take(c as int) + current.skip(c + 1);
            spec_input_change(current, raw, max, c as nat, None) == (raw, c as nat)
        }),
{
    let raw = current.take(c as int) + current.skip(c + 1);
    assert(raw.take(raw.len() as int) =~= raw);
    assert(raw.len() == current.len() - 1);
}

/// Pasting more than one character at the end of a full value changes
/// nothing: the value stays, the caret stays at the end, and no change is
/// reported.
pub proof fn lemma_paste_past_end_of_full_value(current: Seq<char>, extra: Seq<char>, cursor: nat)
    requires
        0 < current.len() <= usize::MAX,
        extra.len() >= 2,
        cursor >= current.len(),
    ensures
        spec_input_change(current, current + extra, current.len(), cursor, None) == (current, current.len()),
        !spec_input_changed(current, current + extra, current.len(), cursor, None),
{
    assert((current + extra).take(current.len() as int) =~= current);
}

} // verus!
