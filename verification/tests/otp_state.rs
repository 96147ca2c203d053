use dioxus_components::otp_edit::{selection_range_for, InputValueChange};
use dioxus_components::otp_input::{
    apply_value_change, is_deletion, selection_direction_for_dom, NativeSync, OtpInputState,
    SelectionDirection,
};
use dioxus_components::otp_slot::slot_view;
use dioxus_components::text::{
    char_index_for_utf16, chars_of, common_prefix, string_from_chars, utf16_len,
    utf16_offset_for_char,
};

fn focused_at(cursor: usize) -> OtpInputState {
    let mut s = OtpInputState::new();
    s.focus(cursor);
    s
}

#[test]
fn initial_state_is_unfocused_at_start() {
    let s = OtpInputState::new();
    assert!(!s.is_focused);
    assert_eq!(s.cursor, 0);
    assert_eq!(s.selection_range, None);
    assert_eq!(s.selected_range(3), None);
    assert_eq!(s.active_index(3, 6), None);
}

#[test]
fn focus_puts_caret_at_end() {
    let s = focused_at(4);
    assert!(s.is_focused);
    assert_eq!(s.cursor, 4);
    assert_eq!(s.active_index(4, 6), Some(4));
    assert_eq!(focused_at(6).active_index(6, 6), Some(5));
}

#[test]
fn pointer_focus_keeps_caret() {
    let mut s = OtpInputState::new();
    assert!(s.begin_slot_selection(1, 4, false));
    assert_eq!(s.cursor, 2);
    assert_eq!(s.pointer_selection_anchor_slot, Some(1));
    s.focus(4);
    assert_eq!(s.cursor, 2);
    assert!(!s.pointer_focus_pending);
}

#[test]
fn disabled_input_ignores_pointer() {
    let mut s = OtpInputState::new();
    assert!(!s.begin_slot_selection(1, 4, true));
    assert!(!s.pointer_down(4, true));
    assert_eq!(s, OtpInputState::new());
}

#[test]
fn drag_selects_slots_backwards() {
    let mut s = OtpInputState::new();
    s.begin_slot_selection(4, 6, false);
    s.extend_slot_selection(1, 6, false);
    assert_eq!(s.selection_range, Some(1..5));
    assert_eq!(s.cursor, 1);
    assert_eq!(s.selection_direction, SelectionDirection::Backward);
    assert_eq!(s.selected_range(6), Some(1..5));
    assert_eq!(s.active_index(6, 6), None);
    s.end_slot_selection(Some(1), 6);
    assert!(!s.selecting_with_pointer);
    assert_eq!(s.selection_range, Some(1..5));
}

#[test]
fn press_on_empty_slot_starts_no_selection() {
    let mut s = OtpInputState::new();
    s.begin_slot_selection(5, 2, false);
    assert_eq!(s.cursor, 2);
    assert_eq!(s.pointer_selection_anchor_slot, None);
    s.extend_slot_selection(0, 2, false);
    assert_eq!(s.selection_range, None);
    s.end_slot_selection(Some(1), 2);
    assert_eq!(s.cursor, 1);
}

#[test]
fn blur_clears_selection_but_keeps_caret() {
    let mut s = OtpInputState::new();
    s.begin_slot_selection(0, 6, false);
    s.extend_slot_selection(3, 6, false);
    s.blur();
    assert!(!s.is_focused);
    assert_eq!(s.selection_range, None);
    assert_eq!(s.cursor, 4);
    assert_eq!(s.selection_direction, SelectionDirection::Unset);
}

#[test]
fn pointer_down_moves_caret_to_end() {
    let mut s = OtpInputState::new();
    assert!(s.pointer_down(3, false));
    assert_eq!(s.cursor, 3);
    assert!(s.pointer_focus_pending);
    s.pointer_cancel();
    assert!(!s.pointer_focus_pending);
}

#[test]
fn native_selection_uses_utf16_offsets() {
    let s = focused_at(2);
    assert_eq!(s.native_selection("😀😃😄"), 4..4);
    let mut t = focused_at(3);
    t.read_native_selection("😀😃😄", 2, 6, SelectionDirection::Forward);
    assert_eq!(t.selection_range, Some(1..3));
    assert_eq!(t.cursor, 3);
    assert_eq!(t.native_selection("😀😃😄"), 2..6);
}

#[test]
fn collapsed_native_selection_is_a_caret() {
    let mut s = focused_at(3);
    s.read_native_selection("123", 1, 1, SelectionDirection::Forward);
    assert_eq!(s.cursor, 1);
    assert_eq!(s.selection_range, None);
    assert_eq!(s.selection_direction, SelectionDirection::Unset);
}

#[test]
fn backward_native_selection_puts_caret_at_start() {
    let mut s = focused_at(3);
    s.read_native_selection("1234", 1, 3, SelectionDirection::Backward);
    assert_eq!(s.cursor, 1);
    assert_eq!(s.selection_range, Some(1..3));
}

#[test]
fn native_selection_round_trip_is_stable() {
    let mut s = focused_at(2);
    s.read_native_selection("a😀b", 1, 3, SelectionDirection::Backward);
    let r = s.native_selection("a😀b");
    let before_cursor = s.cursor;
    let before_range = s.selection_range.clone();
    s.read_native_selection("a😀b", r.start, r.end, s.selection_direction);
    assert_eq!(s.cursor, before_cursor);
    assert_eq!(s.selection_range, before_range);
}

#[test]
fn accepted_entry_sets_value_and_completes() {
    let mut s = focused_at(5);
    let change = s.input_change("12345", "123456", 6);
    assert_eq!(change, InputValueChange { value: "123456".to_string(), cursor: 6, changed: true });
    assert!(s.needs_validation("12345", "123456", 6));
    let e = s.commit_input("12345", "123456", 6, false);
    assert_eq!(e.sync, None);
    assert_eq!(e.value.set_value, Some("123456".to_string()));
    assert_eq!(e.value.complete, Some("123456".to_string()));
    assert_eq!(s.cursor, 6);
}

#[test]
fn rejected_entry_reverts_native_input() {
    let mut s = focused_at(2);
    let e = s.commit_input("12", "12a", 6, true);
    assert_eq!(e.sync, Some(NativeSync { value: "12".to_string(), selection: 2..2 }));
    assert_eq!(e.value.set_value, None);
    assert_eq!(e.value.complete, None);
    assert_eq!(s.cursor, 2);
}

#[test]
fn rejected_entry_restores_selection() {
    let mut s = focused_at(4);
    s.read_native_selection("1234", 1, 3, SelectionDirection::Forward);
    let e = s.commit_input("1234", "1x4", 6, true);
    assert_eq!(e.sync, Some(NativeSync { value: "1234".to_string(), selection: 1..3 }));
    assert_eq!(s.selection_range, Some(1..3));
}

#[test]
fn deletion_bypasses_validator() {
    let mut s = focused_at(3);
    assert!(!s.needs_validation("123", "12", 6));
    let e = s.commit_input("123", "12", 6, true);
    assert_eq!(e.value.set_value, Some("12".to_string()));
    assert_eq!(e.value.complete, None);
    assert_eq!(s.cursor, 2);
}

#[test]
fn overwrite_rewrites_native_input() {
    let mut s = focused_at(1);
    let e = s.commit_input("12", "192", 6, false);
    assert_eq!(e.sync, Some(NativeSync { value: "19".to_string(), selection: 2..2 }));
    assert_eq!(e.value.set_value, Some("19".to_string()));
    assert_eq!(s.cursor, 2);
}

#[test]
fn unchanged_input_needs_no_validation() {
    let mut s = focused_at(3);
    assert!(!s.needs_validation("192", "192", 6));
    let e = s.commit_input("192", "192", 6, true);
    assert_eq!(e.sync, None);
    assert_eq!(e.value.set_value, None);
}

#[test]
fn zero_max_input_is_empty() {
    assert_eq!(
        InputValueChange::from_raw_input("12", "123", 0, 2, None),
        InputValueChange { value: String::new(), cursor: 0, changed: false }
    );
}

#[test]
fn typing_past_end_with_same_char_still_reports_change() {
    assert_eq!(
        InputValueChange::from_raw_input("123456", "1234566", 6, 6, None),
        InputValueChange { value: "123456".to_string(), cursor: 6, changed: true }
    );
}

#[test]
fn typing_at_end_appends() {
    assert_eq!(
        InputValueChange::from_raw_input("12", "123", 4, 2, None),
        InputValueChange { value: "123".to_string(), cursor: 3, changed: true }
    );
}

#[test]
fn value_change_reports_completion_only_on_reaching_max() {
    let e = apply_value_change("12345", "123456", 6);
    assert_eq!(e.complete, Some("123456".to_string()));
    let e = apply_value_change("123456", "123457", 6);
    assert_eq!(e.set_value, Some("123457".to_string()));
    assert_eq!(e.complete, None);
    let e = apply_value_change("12", "12", 6);
    assert_eq!(e.set_value, None);
    assert_eq!(e.complete, None);
}

#[test]
fn deletion_is_recognised() {
    let cur = chars_of("123456");
    // Backspace with the caret after '3', Delete with the caret before '3'.
    assert!(is_deletion(&cur, &chars_of("12456"), 3, None));
    assert!(is_deletion(&cur, &chars_of("12456"), 2, None));
    assert!(!is_deletion(&cur, &chars_of("12456"), 5, None));
    // With a selection, exactly the selected characters go.
    assert!(is_deletion(&cur, &chars_of("1256"), 0, Some(2..4)));
    assert!(!is_deletion(&cur, &chars_of("1256"), 3, None));
    assert!(is_deletion(&cur, &chars_of(""), 0, Some(0..6)));
    assert!(!is_deletion(&cur, &chars_of("1296"), 3, Some(2..4)));
    assert!(!is_deletion(&cur, &chars_of("123456"), 3, None));
    assert!(!is_deletion(&cur, &chars_of("1234567"), 6, None));
}

#[test]
fn typing_over_selection_is_validated() {
    let mut s = focused_at(4);
    s.read_native_selection("1234", 1, 3, SelectionDirection::Forward);
    assert!(s.needs_validation("1234", "134", 6));
    let e = s.commit_input("1234", "134", 6, true);
    assert_eq!(e.value.set_value, None);
    assert_eq!(e.sync, Some(NativeSync { value: "1234".to_string(), selection: 1..3 }));
    assert_eq!(s.selection_range, Some(1..3));
}

#[test]
fn delete_key_at_caret_bypasses_validator() {
    let mut s = focused_at(4);
    s.read_native_selection("1234", 1, 1, SelectionDirection::Unset);
    assert!(!s.needs_validation("1234", "134", 6));
    let e = s.commit_input("1234", "134", 6, true);
    assert_eq!(e.value.set_value, Some("134".to_string()));
}

#[test]
fn selection_delete_bypasses_validator() {
    let mut s = focused_at(4);
    s.read_native_selection("1234", 1, 3, SelectionDirection::Forward);
    assert!(!s.needs_validation("1234", "14", 6));
    let e = s.commit_input("1234", "14", 6, true);
    assert_eq!(e.value.set_value, Some("14".to_string()));
    assert_eq!(s.selection_range, None);
}

#[test]
fn direction_names_for_dom() {
    assert_eq!(selection_direction_for_dom(SelectionDirection::Forward), "forward");
    assert_eq!(selection_direction_for_dom(SelectionDirection::Backward), "backward");
    assert_eq!(selection_direction_for_dom(SelectionDirection::Unset), "none");
}

#[test]
fn utf16_offsets_count_surrogate_pairs() {
    assert_eq!(utf16_len('a'), 1);
    assert_eq!(utf16_len('😀'), 2);
    assert_eq!(utf16_offset_for_char("a😀b", 0), 0);
    assert_eq!(utf16_offset_for_char("a😀b", 2), 3);
    assert_eq!(utf16_offset_for_char("a😀b", 9), 4);
    assert_eq!(char_index_for_utf16("a😀b", 9), 3);
    assert_eq!(char_index_for_utf16("a😀b", utf16_offset_for_char("a😀b", 2)), 2);
}

#[test]
fn text_helpers() {
    assert_eq!(common_prefix(&chars_of("1234"), &chars_of("12x4")), 2);
    assert_eq!(string_from_chars(&chars_of("héllo")), "héllo");
}

#[test]
fn selection_range_is_ordered_and_clamped() {
    assert_eq!(selection_range_for(5, 2, 4), Some(2..4));
    assert_eq!(selection_range_for(3, 3, 4), None);
    assert_eq!(selection_range_for(7, 9, 4), None);
}

#[test]
fn slot_shows_character_and_marks() {
    let v = slot_view("12😀", 2, Some(3), Some(1..3));
    assert_eq!(v.character, Some('😀'));
    assert!(!v.empty);
    assert!(!v.active);
    assert!(v.selected);
    assert!(!v.selection_start);
    assert!(v.selection_end);
    let w = slot_view("12", 3, Some(3), None);
    assert_eq!(w.character, None);
    assert!(w.empty);
    assert!(w.active);
    assert!(!w.selected);
}

#[test]
fn typing_over_a_slot_replaces_it() {
    assert_eq!(
        InputValueChange::from_raw_input("123", "1x23", 6, 1, None),
        InputValueChange { value: "1x3".to_string(), cursor: 2, changed: true }
    );
}

#[test]
fn backspace_at_end_removes_last() {
    assert_eq!(
        InputValueChange::from_raw_input("123", "12", 6, 3, None),
        InputValueChange { value: "12".to_string(), cursor: 2, changed: true }
    );
    assert_eq!(
        InputValueChange::from_raw_input("123456", "12345", 6, 6, None),
        InputValueChange { value: "12345".to_string(), cursor: 5, changed: true }
    );
}

#[test]
fn typing_in_full_value_shifts_and_drops_last() {
    assert_eq!(
        InputValueChange::from_raw_input("123456", "1x23456", 6, 1, None),
        InputValueChange { value: "1x2345".to_string(), cursor: 2, changed: true }
    );
}
