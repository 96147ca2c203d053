use dioxus_components::otp_edit::{selection_range_for, InputValueChange};
use dioxus_components::otp_slot::{
    active_slot_index, slot_selection_focus_cursor, slot_selection_range,
};
use dioxus_components::text::char_index_for_utf16;

fn input_change(value: &str, cursor: usize, changed: bool) -> InputValueChange {
    InputValueChange {
        value: value.to_string(),
        cursor,
        changed,
    }
}

#[test]
fn input_change_uses_raw_value() {
    assert_eq!(
        InputValueChange::from_raw_input("12", "129", 6, 2, None),
        input_change("129", 3, true)
    );
}

#[test]
fn input_change_replaces_at_visible_cursor() {
    assert_eq!(
        InputValueChange::from_raw_input("12", "192", 6, 1, None),
        input_change("19", 2, true)
    );
}

#[test]
fn multi_character_input_change_replaces_active_slot() {
    assert_eq!(
        InputValueChange::from_raw_input("12", "1982", 6, 1, None),
        input_change("198", 3, true)
    );
}

#[test]
fn unchanged_input_is_not_reported_as_changed() {
    assert_eq!(
        InputValueChange::from_raw_input("192", "192", 6, 3, None),
        input_change("192", 3, false)
    );
}

#[test]
fn typing_past_end_of_full_buffer_replaces_last_slot() {
    // Native input grows by one char; we splice the overflow into the last slot.
    assert_eq!(
        InputValueChange::from_raw_input("123456", "1234569", 6, 6, None),
        input_change("123459", 6, true)
    );
}

#[test]
fn paste_past_end_of_full_buffer_is_truncated() {
    // Multi-char overflow (paste) shouldn't replace; we keep the original buffer.
    assert_eq!(
        InputValueChange::from_raw_input("123456", "12345699", 6, 6, None),
        input_change("123456", 6, false)
    );
}

#[test]
fn input_deletion_uses_raw_value() {
    assert_eq!(
        InputValueChange::from_raw_input("12", "1", 6, 2, None),
        input_change("1", 1, true)
    );
}

#[test]
fn full_input_replacement_uses_raw_value() {
    assert_eq!(
        InputValueChange::from_raw_input("12", "987654", 6, 0, selection_range_for(0, 2, 2)),
        input_change("987654", 6, true)
    );
}

#[test]
fn full_input_replacement_with_shared_prefix_uses_raw_value() {
    assert_eq!(
        InputValueChange::from_raw_input(
            "123456",
            "123999",
            6,
            0,
            selection_range_for(0, 6, 6),
        ),
        input_change("123999", 6, true)
    );
}

#[test]
fn shorter_full_input_replacement_with_shared_prefix_uses_raw_value() {
    assert_eq!(
        InputValueChange::from_raw_input("123456", "1239", 6, 0, selection_range_for(0, 6, 6),),
        input_change("1239", 4, true)
    );
}

#[test]
fn full_input_replacement_truncates_to_maxlength() {
    assert_eq!(
        InputValueChange::from_raw_input(
            "123456",
            "9876543",
            6,
            0,
            selection_range_for(0, 6, 6),
        ),
        input_change("987654", 6, true)
    );
}

#[test]
fn selected_range_replacement_with_shared_digits_uses_raw_value() {
    assert_eq!(
        InputValueChange::from_raw_input(
            "123456",
            "123996",
            6,
            3,
            selection_range_for(3, 5, 6),
        ),
        input_change("123996", 5, true)
    );
}

#[test]
fn char_index_for_utf16_handles_surrogate_pairs() {
    // 😀 is two UTF-16 code units, one char.
    assert_eq!(char_index_for_utf16("😀😃😄", 0), 0);
    assert_eq!(char_index_for_utf16("😀😃😄", 2), 1);
    assert_eq!(char_index_for_utf16("😀😃😄", 4), 2);
    // A utf16 offset that lands inside a surrogate rounds down to the boundary.
    assert_eq!(char_index_for_utf16("😀😃😄", 3), 1);
}

#[test]
fn active_slot_stays_visible_at_end() {
    assert_eq!(active_slot_index(6, 6, 6), Some(5));
}

#[test]
fn active_slot_tracks_next_empty_slot() {
    assert_eq!(active_slot_index(2, 2, 6), Some(2));
}

#[test]
fn slot_selection_range_includes_starting_slot() {
    assert_eq!(slot_selection_range(1, 4, 6), Some(1..5));
    assert_eq!(slot_selection_range(4, 1, 6), Some(1..5));
    assert_eq!(slot_selection_range(5, 5, 6), Some(5..6));
    assert_eq!(slot_selection_range(5, 2, 2), Some(1..2));
}

#[test]
fn slot_selection_cursors_track_drag_direction() {
    assert_eq!(slot_selection_focus_cursor(1, 4, 6), 5);
    assert_eq!(slot_selection_focus_cursor(4, 1, 6), 1);
}
