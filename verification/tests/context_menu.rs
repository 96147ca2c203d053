use dioxus_components::context_menu::{
    content_holds_focus, content_keydown, item_disabled, item_keydown, item_pointer_down,
    menu_keydown_closes, open_after_focus_change, open_state_name, roving_tab_index, roving_target, FocusMove,
    LongPress, MenuKey, TimerAction,
};

#[test]
fn open_state_follows_focus() {
    assert_eq!(open_after_focus_change(false, true), Some(true));
    assert_eq!(open_after_focus_change(true, false), Some(false));
    assert_eq!(open_after_focus_change(true, true), None);
    assert_eq!(open_after_focus_change(false, false), None);
}

#[test]
fn escape_closes_open_menu() {
    assert!(menu_keydown_closes(true, MenuKey::Escape));
    assert!(!menu_keydown_closes(false, MenuKey::Escape));
    assert!(!menu_keydown_closes(true, MenuKey::Enter));
    assert_eq!(content_keydown(MenuKey::Escape, true), (true, Some(FocusMove::Blur)));
}

#[test]
fn arrow_keys_move_focus() {
    assert_eq!(content_keydown(MenuKey::ArrowDown, false), (true, Some(FocusMove::Next)));
    assert_eq!(content_keydown(MenuKey::ArrowUp, true), (true, Some(FocusMove::Prev)));
    assert_eq!(content_keydown(MenuKey::ArrowUp, false), (true, None));
    assert_eq!(content_keydown(MenuKey::Home, true), (true, Some(FocusMove::First)));
    assert_eq!(content_keydown(MenuKey::End, true), (true, Some(FocusMove::Last)));
    assert_eq!(content_keydown(MenuKey::Other, true), (false, None));
}

#[test]
fn enter_on_item_selects() {
    let r = item_keydown(MenuKey::Enter, false);
    assert!(r.select && r.blur && r.prevent_default && r.stop_propagation);
    let r = item_keydown(MenuKey::Space, false);
    assert!(r.select);
    let r = item_keydown(MenuKey::ArrowDown, false);
    assert!(!r.select && !r.prevent_default);
}

#[test]
fn disabled_item_is_not_selected() {
    let d = item_disabled(true, false);
    assert!(d);
    assert!(item_disabled(false, true));
    assert!(!item_disabled(false, false));
    let r = item_keydown(MenuKey::Enter, d);
    assert!(!r.select && !r.blur && r.prevent_default && r.stop_propagation);
    let r = item_pointer_down(d);
    assert!(!r.select && !r.prevent_default);
    let r = item_pointer_down(false);
    assert!(r.select && r.blur && r.prevent_default && r.stop_propagation);
}

#[test]
fn state_names_and_tab_index() {
    assert_eq!(open_state_name(true), "open");
    assert_eq!(open_state_name(false), "closed");
    assert_eq!(roving_tab_index(true), "0");
    assert_eq!(roving_tab_index(false), "-1");
    assert!(content_holds_focus(true, false));
    assert!(!content_holds_focus(true, true));
    assert!(!content_holds_focus(false, false));
}

#[test]
fn long_press_lifecycle() {
    let mut l = LongPress::new();
    assert_eq!(l.pointer_down(true, false), TimerAction::Keep);
    assert!(!l.started);
    assert_eq!(l.pointer_down(false, false), TimerAction::Restart);
    assert!(l.timer && l.started);
    assert_eq!(l.pointer_move(false), TimerAction::Keep);
    assert_eq!(l.pointer_move(true), TimerAction::Cancel);
    assert!(!l.timer && !l.started);
    assert_eq!(l.pointer_move(true), TimerAction::Keep);
    assert_eq!(l.pointer_down(false, true), TimerAction::Keep);
    l.pointer_down(false, false);
    assert_eq!(l.pointer_end(), TimerAction::Cancel);
    assert_eq!(l.pointer_end(), TimerAction::Keep);
}

#[test]
fn context_menu_event_opens_unless_disabled() {
    let mut l = LongPress::new();
    l.pointer_down(false, false);
    assert_eq!(l.context_menu(true), (false, TimerAction::Keep));
    assert!(l.timer);
    assert_eq!(l.context_menu(false), (true, TimerAction::Cancel));
    assert!(!l.timer && !l.started);
}

#[test]
fn roving_focus_skips_disabled_items() {
    let enabled = [true, false, true];
    assert_eq!(roving_target(None, &enabled, FocusMove::Next, true), Some(0));
    assert_eq!(roving_target(Some(0), &enabled, FocusMove::Next, true), Some(2));
    assert_eq!(roving_target(Some(2), &enabled, FocusMove::Next, true), Some(0));
    assert_eq!(roving_target(Some(2), &enabled, FocusMove::Next, false), Some(2));
    assert_eq!(roving_target(Some(2), &enabled, FocusMove::Prev, true), Some(0));
    assert_eq!(roving_target(Some(0), &enabled, FocusMove::Prev, true), Some(2));
    assert_eq!(roving_target(Some(0), &enabled, FocusMove::Prev, false), Some(0));
    assert_eq!(roving_target(None, &enabled, FocusMove::Prev, false), Some(2));
    assert_eq!(roving_target(Some(1), &enabled, FocusMove::First, false), Some(0));
    assert_eq!(roving_target(Some(1), &enabled, FocusMove::Last, false), Some(2));
    assert_eq!(roving_target(Some(1), &enabled, FocusMove::Blur, false), None);
    assert_eq!(roving_target(None, &[false, false], FocusMove::Next, true), None);
    assert_eq!(roving_target(None, &[], FocusMove::Last, true), None);
}

#[test]
fn right_click_opens_the_menu() {
    let mut press = LongPress::new();
    let (open, _) = press.context_menu(false);
    assert!(open);
    assert_eq!(open_state_name(open), "open");
}

#[test]
fn enter_on_item_selects_and_closes_menu() {
    let r = item_keydown(MenuKey::Enter, item_disabled(false, false));
    assert!(r.select);
    assert!(r.blur);
    // With no item focused any more, the open menu closes.
    assert_eq!(open_after_focus_change(true, false), Some(false));
}

#[test]
fn escape_closes_the_menu() {
    assert_eq!(content_keydown(MenuKey::Escape, true), (true, Some(FocusMove::Blur)));
    assert_eq!(roving_target(Some(0), &[true, true, true], FocusMove::Blur, true), None);
    assert_eq!(open_after_focus_change(true, false), Some(false));
}

#[test]
fn disabled_item_is_marked() {
    assert!(item_disabled(true, false));
    assert!(!item_pointer_down(item_disabled(true, false)).select);
}
