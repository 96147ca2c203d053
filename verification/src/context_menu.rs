//! The decisions of the context menu: when it opens and closes, how a long
//! press on touch devices opens it, how the keyboard moves focus through the
//! menu, and when an item is selected.

use vstd::prelude::*;

verus! {

/// The keys the context menu reacts to.
#[derive(Clone, Copy, Debug, PartialEq, Eq, Structural)]
pub enum MenuKey {
    Escape,
    ArrowDown,
    ArrowUp,
    Home,
    End,
    Enter,
    /// The space bar.
    Space,
    /// Any other key.
    Other,
}

/// A move of the roving focus among the menu items.
#[derive(Clone, Copy, Debug, PartialEq, Eq, Structural)]
pub enum FocusMove {
    /// Take focus away from the items (which closes the menu).
    Blur,
    Next,
    Prev,
    First,
    Last,
}

/// The open state follows whether any item has focus: when they differ,
/// the open state must be set to the focus state.
pub open spec fn spec_open_after_focus_change(open: bool, any_focused: bool) -> Option<bool> {
    if open != any_focused {
        Some(any_focused)
    } else {
        None
    }
}

/// The open state to set, if any, when the focus state of the items is
/// `any_focused` (see [`spec_open_after_focus_change`]).
pub fn open_after_focus_change(open: bool, any_focused: bool) -> (r: Option<bool>)
    ensures
        r == spec_open_after_focus_change(open, any_focused),
{
    if open != any_focused {
        Some(any_focused)
    } else {
        None
    }
}

/// Whether a key press on the menu closes it (and blurs the items): only
/// `Escape` while open.
pub fn menu_keydown_closes(open: bool, key: MenuKey) -> (close: bool)
    ensures
        close == (open && key == MenuKey::Escape),
{
    open && key == MenuKey::Escape
}

/// The `data-state` attribute of an open or closed menu.
pub fn open_state_name(open: bool) -> (s: &'static str)
    ensures
        open ==> s@ == "open"@,
        !open ==> s@ == "closed"@,
{
    if open {
        "open"
    } else {
        "closed"
    }
}

/// The `tabindex` of an element that does (`"0"`) or does not (`"-1"`) hold
/// the roving focus.
pub fn roving_tab_index(focused: bool) -> (s: &'static str)
    ensures
        focused ==> s@ == "0"@,
        !focused ==> s@ == "-1"@,
{
    if focused {
        "0"
    } else {
        "-1"
    }
}

/// What to do with the long-press timer of the trigger.
#[derive(Clone, Copy, Debug, PartialEq, Eq, Structural)]
pub enum TimerAction {
    /// Leave it as it is.
    Keep,
    /// Cancel the running timer.
    Cancel,
    /// Cancel any running timer and start a new one from the press position.
    Restart,
}

/// The long-press tracking of the context-menu trigger: whether a timer is
/// held and whether a press position is recorded.
#[derive(Clone, Copy, Debug, PartialEq, Eq, Structural)]
pub struct LongPress {
    pub timer: bool,
    pub started: bool,
}

impl LongPress {
    /// No press under way.
    pub fn new() -> (l: Self)
        ensures
            !l.timer && !l.started,
    {
        LongPress { timer: false, started: false }
    }

    /// The native `contextmenu` event. Unless the menu is disabled, any
    /// long press is abandoned (its timer cancelled) and the menu opens at
    /// the event position. Returns whether to open, and what to do with the
    /// timer.
    pub fn context_menu(&mut self, disabled: bool) -> (r: (bool, TimerAction))
        ensures
            r.0 == !disabled,
            disabled ==> *final(self) == *old(self) && r.1 == TimerAction::Keep,
            !disabled ==> !final(self).timer && !final(self).started
                && r.1 == (if old(self).timer { TimerAction::Cancel } else { TimerAction::Keep }),
    {
        if disabled {
            return (false, TimerAction::Keep);
        }
        let action = self.cancel();
        (true, action)
    }

    /// A pointer press. Touch and pen presses (not the mouse, which has the
    /// native `contextmenu`) start the long-press timer from the press
    /// position, unless the menu is disabled.
    pub fn pointer_down(&mut self, is_mouse: bool, disabled: bool) -> (a: TimerAction)
        ensures
            is_mouse || disabled ==> *final(self) == *old(self) && a == TimerAction::Keep,
            !(is_mouse || disabled) ==> final(self).timer && final(self).started && a == TimerAction::Restart,
    {
        if is_mouse || disabled {
            return TimerAction::Keep;
        }
        self.timer = true;
        self.started = true;
        TimerAction::Restart
    }

    /// The pointer moves; `beyond_tolerance` is whether it has drifted too
    /// far from the press position. A drift cancels the long press.
    pub fn pointer_move(&mut self, beyond_tolerance: bool) -> (a: TimerAction)
        ensures
            !old(self).started || !beyond_tolerance ==> *final(self) == *old(self) && a == TimerAction::Keep,
            old(self).started && beyond_tolerance ==> !final(self).timer && !final(self).started
                && a == (if old(self).timer { TimerAction::Cancel } else { TimerAction::Keep }),
    {
        if !self.started || !beyond_tolerance {
            return TimerAction::Keep;
        }
        self.cancel()
    }

    /// The pointer is released or the press is cancelled: the long press is
    /// abandoned.
    pub fn pointer_end(&mut self) -> (a: TimerAction)
        ensures
            !final(self).timer && !final(self).started,
            a == (if old(self).timer { TimerAction::Cancel } else { TimerAction::Keep }),
    {
        self.cancel()
    }

    /// Drops the timer (cancelling it when one is held) and the position.
    fn cancel(&mut self) -> (a: TimerAction)
        ensures
            !final(self).timer && !final(self).started,
            a == (if old(self).timer { TimerAction::Cancel } else { TimerAction::Keep }),
    {
        let a = if self.timer { TimerAction::Cancel } else { TimerAction::Keep };
        self.timer = false;
        self.started = false;
        a
    }
}

/// What a key press on the menu content does: `Escape` blurs the items
/// (closing the menu), the arrows move to the next or previous item (up only
/// while open), `Home` and `End` to the first and last item; those keys have
/// their default action prevented, the others are left alone.
pub open spec fn spec_content_keydown(key: MenuKey, open: bool) -> (bool, Option<FocusMove>) {
    match key {
        MenuKey::Escape => (true, Some(FocusMove::Blur)),
        MenuKey::ArrowDown => (true, Some(FocusMove::Next)),
        MenuKey::ArrowUp => (true, if open { Some(FocusMove::Prev) } else { None }),
        MenuKey::Home => (true, Some(FocusMove::First)),
        MenuKey::End => (true, Some(FocusMove::Last)),
        _ => (false, None),
    }
}

/// What a key press on the menu content does (see [`spec_content_keydown`]):
/// whether to prevent the default action, and the focus move.
pub fn content_keydown(key: MenuKey, open: bool) -> (r: (bool, Option<FocusMove>))
    ensures
        r == spec_content_keydown(key, open),
{
    match key {
        MenuKey::Escape => (true, Some(FocusMove::Blur)),
        MenuKey::ArrowDown => (true, Some(FocusMove::Next)),
        MenuKey::ArrowUp => (true, if open { Some(FocusMove::Prev) } else { None }),
        MenuKey::Home => (true, Some(FocusMove::First)),
        MenuKey::End => (true, Some(FocusMove::Last)),
        _ => (false, None),
    }
}

/// Whether the menu content itself holds the focus: while the menu is open
/// and no item has focus, so that it still receives the keyboard.
pub fn content_holds_focus(open: bool, any_focused: bool) -> (f: bool)
    ensures
        f == (open && !any_focused),
{
    open && !any_focused
}

/// An item is disabled when it is disabled itself or the menu is.
pub fn item_disabled(item: bool, menu: bool) -> (d: bool)
    ensures
        d == (item || menu),
{
    item || menu
}

/// The response of an item to a pointer press or a key press.
#[derive(Clone, Copy, Debug, PartialEq, Eq, Structural)]
pub struct ItemResponse {
    /// Call `on_select` with the item's value.
    pub select: bool,
    /// Blur the items, which closes the menu.
    pub blur: bool,
    pub prevent_default: bool,
    pub stop_propagation: bool,
}

/// A pointer press on an item: an enabled item is selected, the menu
/// closes and the event goes no further; a disabled item does nothing.
pub open spec fn spec_item_pointer_down(disabled: bool) -> ItemResponse {
    ItemResponse { select: !disabled, blur: !disabled, prevent_default: !disabled, stop_propagation: !disabled }
}

/// A key press on an item: `Enter` and space select an enabled item and
/// close the menu, and on any item they go no further; other keys do
/// nothing.
pub open spec fn spec_item_keydown(key: MenuKey, disabled: bool) -> ItemResponse {
    if key == MenuKey::Enter || key == MenuKey::Space {
        ItemResponse { select: !disabled, blur: !disabled, prevent_default: true, stop_propagation: true }
    } else {
        ItemResponse { select: false, blur: false, prevent_default: false, stop_propagation: false }
    }
}

/// The response of an item to a pointer press (see
/// [`spec_item_pointer_down`]).
pub fn item_pointer_down(disabled: bool) -> (r: ItemResponse)
    ensures
        r == spec_item_pointer_down(disabled),
{
    ItemResponse { select: !disabled, blur: !disabled, prevent_default: !disabled, stop_propagation: !disabled }
}

/// The response of an item to a key press (see [`spec_item_keydown`]).
pub fn item_keydown(key: MenuKey, disabled: bool) -> (r: ItemResponse)
    ensures
        r == spec_item_keydown(key, disabled),
{
    if key == MenuKey::Enter || key == MenuKey::Space {
        ItemResponse { select: !disabled, blur: !disabled, prevent_default: true, stop_propagation: true }
    } else {
        ItemResponse { select: false, blur: false, prevent_default: false, stop_propagation: false }
    }
}

/// Selecting an item, by pointer or keyboard, blurs the items, and an open
/// menu whose items have all lost focus closes.
pub proof fn lemma_selection_closes_menu(key: MenuKey, disabled: bool)
    ensures
        spec_item_pointer_down(disabled).select ==> spec_item_pointer_down(disabled).blur,
        spec_item_keydown(key, disabled).select ==> spec_item_keydown(key, disabled).blur,
        spec_open_after_focus_change(true, false) == Some(false),
{
}

/// A disabled item (or an item of a disabled menu) is never selected.
pub proof fn lemma_disabled_item_never_selected(key: MenuKey, item: bool, menu: bool)
    requires
        item || menu,
    ensures
        !spec_item_pointer_down(item || menu).select,
        !spec_item_keydown(key, item || menu).select,
{
}

/// `Escape` on the open menu closes it, and on its content blurs the items.
pub proof fn lemma_escape_closes(open: bool)
    ensures
        spec_content_keydown(MenuKey::Escape, open) == (true, Some(FocusMove::Blur)),
{
}

/// The first enabled item at or after `from`, if any.
pub open spec fn spec_first_enabled_from(enabled: Seq<bool>, from: int) -> Option<int>
    decreases enabled.len() - from,
{
    if from >= enabled.len() {
        None
    } else if from >= 0 && enabled[from] {
        Some(from)
    } else {
        spec_first_enabled_from(enabled, from + 1)
    }
}

/// The last enabled item at or before `from`, if any.
pub open spec fn spec_last_enabled_to(enabled: Seq<bool>, from: int) -> Option<int>
    decreases from + 1,
{
    if from < 0 {
        None
    } else if from < enabled.len() && enabled[from] {
        Some(from)
    } else {
        spec_last_enabled_to(enabled, from - 1)
    }
}

/// Where a focus move takes the roving focus among items whose enabled
/// flags are `enabled`, from the item `current` (if one has focus).
/// Disabled items are skipped; with `looping`, moving past either end wraps
/// around to the other, otherwise the focus stays.
pub open spec fn spec_roving_target(current: Option<usize>, enabled: Seq<bool>, mv: FocusMove, looping: bool) -> Option<int> {
    let first = spec_first_enabled_from(enabled, 0);
    let last = spec_last_enabled_to(enabled, enabled.len() - 1);
    match mv {
        FocusMove::Blur => None,
        FocusMove::First => first,
        FocusMove::Last => last,
        FocusMove::Next => match current {
            None => first,
            Some(c) => match spec_first_enabled_from(enabled, c + 1) {
                Some(i) => Some(i),
                None => if looping && first is Some { first } else { Some(c as int) },
            },
        },
        FocusMove::Prev => match current {
            None => last,
            Some(c) => match spec_last_enabled_to(enabled, c - 1) {
                Some(i) => Some(i),
                None => if looping && last is Some { last } else { Some(c as int) },
            },
        },
    }
}

/// The first enabled item at or after `from` (see
/// [`spec_first_enabled_from`]).
fn first_enabled_from(enabled: &[bool], from: usize) -> (r: Option<usize>)
    ensures
        r matches Some(i) ==> spec_first_enabled_from(enabled@, from as int) == Some(i as int),
        r is None ==> spec_first_enabled_from(enabled@, from as int) is None,
{
    let n = enabled.len();
    let mut i = from;
    while i < n
        invariant
            from <= i,
            n == enabled@.len(),
            spec_first_enabled_from(enabled@, from as int) == spec_first_enabled_from(enabled@, i as int),
        decreases n - i,
    {
        if enabled[i] {
            return Some(i);
        }
        i = i + 1;
    }
    None
}

/// The last enabled item at or before `to`, when `to` is given (see
/// [`spec_last_enabled_to`]); `None` otherwise.
fn last_enabled_to(enabled: &[bool], to: Option<usize>) -> (r: Option<usize>)
    ensures
        to matches Some(t) ==> (r matches Some(i) ==> spec_last_enabled_to(enabled@, t as int) == Some(i as int)),
        to matches Some(t) ==> (r is None ==> spec_last_enabled_to(enabled@, t as int) is None),
        to is None ==> r is None,
{
    let t = match to {
        Some(t) => t,
        None => return None,
    };
    let n = enabled.len();
    let mut i = t;
    loop
        invariant
            i <= t,
            to == Some(t),
            n == enabled@.len(),
            spec_last_enabled_to(enabled@, t as int) == spec_last_enabled_to(enabled@, i as int),
        decreases i,
    {
        if i < n && enabled[i] {
            return Some(i);
        }
        if i == 0 {
            assert(spec_last_enabled_to(enabled@, -1) is None);
            assert(spec_last_enabled_to(enabled@, 0) == spec_last_enabled_to(enabled@, -1));
            return None;
        }
        i = i - 1;
    }
}

/// Where a focus move takes the roving focus (see
/// [`spec_roving_target`]).
pub fn roving_target(current: Option<usize>, enabled: &[bool], mv: FocusMove, looping: bool) -> (r: Option<usize>)
    ensures
        r matches Some(i) ==> spec_roving_target(current, enabled@, mv, looping) == Some(i as int),
        r is None ==> spec_roving_target(current, enabled@, mv, looping) is None,
{
    let n = enabled.len();
    let first = first_enabled_from(enabled, 0);
    let last = last_enabled_to(enabled, if n > 0 { Some(n - 1) } else { None });
    proof {
        if n == 0 {
            assert(spec_last_enabled_to(enabled@, -1) is None);
        }
    }
    match mv {
        FocusMove::Blur => None,
        FocusMove::First => first,
        FocusMove::Last => last,
        FocusMove::Next => match current {
            None => first,
            Some(c) => {
                let after = if c < n { first_enabled_from(enabled, c + 1) } else { None };
                match after {
                    Some(i) => Some(i),
                    None => if looping && first.is_some() { first } else { Some(c) },
                }
            },
        },
        FocusMove::Prev => match current {
            None => last,
            Some(c) => {
                let before = last_enabled_to(enabled, if c > 0 { Some(c - 1) } else { None });
                proof {
                    if c == 0 {
                        assert(spec_last_enabled_to(enabled@, -1) is None);
                    }
                }
                match before {
                    Some(i) => Some(i),
                    None => if looping && last.is_some() { last } else { Some(c) },
                }
            },
        },
    }
}

/// The item found searching forwards is the first enabled one from `from`.
pub proof fn lemma_first_enabled_from(enabled: Seq<bool>, from: int)
    ensures
        spec_first_enabled_from(enabled, from) matches Some(i) ==> from <= i < enabled.len() && 0 <= i
            && enabled[i] && forall|j: int| from <= j < i && 0 <= j ==> !#[trigger] enabled[j],
        spec_first_enabled_from(enabled, from) is None ==> forall|j: int|
            from <= j < enabled.len() && 0 <= j ==> !#[trigger] enabled[j],
    decreases enabled.len() - from,
{
    if from < enabled.len() && !(from >= 0 && enabled[from]) {
        lemma_first_enabled_from(enabled, from + 1);
    }
}

/// The item found searching backwards is the last enabled one up to `from`.
pub proof fn lemma_last_enabled_to(enabled: Seq<bool>, from: int)
    ensures
        spec_last_enabled_to(enabled, from) matches Some(i) ==> 0 <= i <= from && i < enabled.len()
            && enabled[i] && forall|j: int| i < j <= from && j < enabled.len() ==> !#[trigger] enabled[j],
        spec_last_enabled_to(enabled, from) is None ==> forall|j: int|
            0 <= j <= from && j < enabled.len() ==> !#[trigger] enabled[j],
    decreases from + 1,
{
    if from >= 0 && !(from < enabled.len() && enabled[from]) {
        lemma_last_enabled_to(enabled, from - 1);
    }
}

/// The roving focus only ever moves onto an enabled item; otherwise it
/// stays where it was or leaves the items.
pub proof fn lemma_roving_target_is_enabled(current: Option<usize>, enabled: Seq<bool>, mv: FocusMove, looping: bool)
    ensures
        spec_roving_target(current, enabled, mv, looping) matches Some(i) ==> current == Some(i as usize)
            || (0 <= i < enabled.len() && enabled[i]),
{
    lemma_first_enabled_from(enabled, 0);
    lemma_last_enabled_to(enabled, enabled.len() - 1);
    if let Some(c) = current {
        lemma_first_enabled_from(enabled, c + 1);
        lemma_last_enabled_to(enabled, c - 1);
    }
}


/// ArrowDown moves the focus to the first enabled item after the focused
/// one, when there is one.
pub proof fn lemma_roving_next_is_following_enabled(c: usize, enabled: Seq<bool>, looping: bool)
    requires
        exists|j: int| c < j < enabled.len() && #[trigger] enabled[j],
    ensures
        spec_roving_target(Some(c), enabled, FocusMove::Next, looping) matches Some(i) && c < i < enabled.len()
            && enabled[i] && forall|k: int| c < k < i ==> !#[trigger] enabled[k],
{
    lemma_first_enabled_from(enabled, 0);
    lemma_first_enabled_from(enabled, c + 1);
}

/// ArrowUp moves the focus to the last enabled item before the focused one,
/// when there is one.
pub proof fn lemma_roving_prev_is_preceding_enabled(c: usize, enabled: Seq<bool>, looping: bool)
    requires
        exists|j: int| 0 <= j < c && j < enabled.len() && #[trigger] enabled[j],
    ensures
        spec_roving_target(Some(c), enabled, FocusMove::Prev, looping) matches Some(i) && 0 <= i < c
            && i < enabled.len() && enabled[i] && forall|k: int| i < k < c && k < enabled.len() ==> !#[trigger] enabled[k],
{
    lemma_last_enabled_to(enabled, enabled.len() - 1);
    lemma_last_enabled_to(enabled, c - 1);
}

/// Past the last enabled item, ArrowDown wraps around to the first enabled
/// item when the focus loops, and stays put otherwise; ArrowUp likewise
/// wraps to the last enabled item.
pub proof fn lemma_roving_wraps_only_when_looping(c: usize, enabled: Seq<bool>, looping: bool)
    requires
        exists|j: int| 0 <= j < enabled.len() && #[trigger] enabled[j],
    ensures
        (forall|j: int| c < j < enabled.len() ==> !#[trigger] enabled[j]) ==> spec_roving_target(
            Some(c),
            enabled,
            FocusMove::Next,
            looping,
        ) == (if looping {
            spec_roving_target(None, enabled, FocusMove::First, looping)
        } else {
            Some(c as int)
        }),
        (forall|j: int| 0 <= j < c && j < enabled.len() ==> !#[trigger] enabled[j]) ==> spec_roving_target(
            Some(c),
            enabled,
            FocusMove::Prev,
            looping,
        ) == (if looping {
            spec_roving_target(None, enabled, FocusMove::Last, looping)
        } else {
            Some(c as int)
        }),
{
    lemma_first_enabled_from(enabled, 0);
    lemma_first_enabled_from(enabled, c + 1);
    lemma_last_enabled_to(enabled, enabled.len() - 1);
    lemma_last_enabled_to(enabled, c - 1);
}

/// Home and End move the focus to the first and the last enabled item, and
/// with no item focused, ArrowDown and ArrowUp do the same.
pub proof fn lemma_roving_first_and_last(enabled: Seq<bool>, looping: bool)
    requires
        exists|j: int| 0 <= j < enabled.len() && #[trigger] enabled[j],
    ensures
        spec_roving_target(None, enabled, FocusMove::First, looping) matches Some(i) && 0 <= i < enabled.len()
            && enabled[i] && forall|k: int| 0 <= k < i ==> !#[trigger] enabled[k],
        spec_roving_target(None, enabled, FocusMove::Last, looping) matches Some(i) && 0 <= i < enabled.len()
            && enabled[i] && forall|k: int| i < k < enabled.len() ==> !#[trigger] enabled[k],
        spec_roving_target(None, enabled, FocusMove::Next, looping) == spec_roving_target(None, enabled, FocusMove::First, looping),
        spec_roving_target(None, enabled, FocusMove::Prev, looping) == spec_roving_target(None, enabled, FocusMove::Last, looping),
{
    lemma_first_enabled_from(enabled, 0);
    lemma_last_enabled_to(enabled, enabled.len() - 1);
}

/// With no enabled item, Home, End and the arrows from no focused item
/// focus nothing, and the arrows leave a focused item where it is.
pub proof fn lemma_roving_without_enabled_items(c: usize, enabled: Seq<bool>, looping: bool)
    requires
        forall|j: int| 0 <= j < enabled.len() ==> !#[trigger] enabled[j],
    ensures
        spec_roving_target(None, enabled, FocusMove::First, looping) is None,
        spec_roving_target(None, enabled, FocusMove::Last, looping) is None,
        spec_roving_target(None, enabled, FocusMove::Next, looping) is None,
        spec_roving_target(None, enabled, FocusMove::Prev, looping) is None,
        spec_roving_target(Some(c), enabled, FocusMove::Next, looping) == Some(c as int),
        spec_roving_target(Some(c), enabled, FocusMove::Prev, looping) == Some(c as int),
{
    lemma_first_enabled_from(enabled, 0);
    lemma_first_enabled_from(enabled, c + 1);
    lemma_last_enabled_to(enabled, enabled.len() - 1);
    lemma_last_enabled_to(enabled, c - 1);
}

/// Escape blurs the items from wherever the focus is.
pub proof fn lemma_roving_blur_leaves_items(current: Option<usize>, enabled: Seq<bool>, looping: bool)
    ensures
        spec_roving_target(current, enabled, FocusMove::Blur, looping) is None,
{
}

/// The keys of the menu content: Escape blurs, ArrowDown moves to the next
/// item, ArrowUp to the previous one while the menu is open, Home and End
/// to the first and last; all of these keep the browser's default action
/// from happening, and every other key is left alone.
pub proof fn lemma_content_keys(open: bool)
    ensures
        spec_content_keydown(MenuKey::Escape, open) == (true, Some(FocusMove::Blur)),
        spec_content_keydown(MenuKey::ArrowDown, open) == (true, Some(FocusMove::Next)),
        spec_content_keydown(MenuKey::ArrowUp, true) == (true, Some(FocusMove::Prev)),
        spec_content_keydown(MenuKey::ArrowUp, false) == (true, None::<FocusMove>),
        spec_content_keydown(MenuKey::Home, open) == (true, Some(FocusMove::First)),
        spec_content_keydown(MenuKey::End, open) == (true, Some(FocusMove::Last)),
        spec_content_keydown(MenuKey::Enter, open) == (false, None::<FocusMove>),
        spec_content_keydown(MenuKey::Space, open) == (false, None::<FocusMove>),
        spec_content_keydown(MenuKey::Other, open) == (false, None::<FocusMove>),
{
}

/// An enabled item is selected by a pointer press and by Enter or space,
/// and the menu then closes; other keys select nothing and are left alone.
pub proof fn lemma_enabled_item_is_selected(key: MenuKey)
    ensures
        spec_item_pointer_down(false).select && spec_item_pointer_down(false).blur,
        (key == MenuKey::Enter || key == MenuKey::Space) ==> spec_item_keydown(key, false).select
            && spec_item_keydown(key, false).blur,
        !(key == MenuKey::Enter || key == MenuKey::Space) ==> !spec_item_keydown(key, false).select
            && !spec_item_keydown(key, false).prevent_default,
{
}

/// The open state is set exactly when it disagrees with whether an item has
/// focus, and then to that focus state.
pub proof fn lemma_open_follows_focus(open: bool, any_focused: bool)
    ensures
        spec_open_after_focus_change(open, any_focused) is None <==> open == any_focused,
        spec_open_after_focus_change(open, any_focused) matches Some(b) ==> b == any_focused,
{
}

} // verus!
