use dioxus_components::preview::{
    component_title, contains_run, expand_code_label, find_by_name, gallery_shows, iframe_src,
    pick_block_variant, posts_route_change, ComponentType, Language, Route,
};
use dioxus_components::text::chars_of;

#[test]
fn route_flags() {
    let home = Route::Home { iframe: Some(true), dark_mode: Some(false) };
    assert_eq!(home.iframe(), Some(true));
    assert_eq!(home.dark_mode(), Some(false));
    let block = Route::ComponentBlockDemo { name: "x".to_string(), variant: None, dark_mode: Some(true) };
    assert_eq!(block.iframe(), None);
    assert_eq!(block.dark_mode(), Some(true));
    let dash = Route::EmailClientDashboard { dark_mode: None };
    assert_eq!(dash.iframe(), None);
    assert_eq!(dash.dark_mode(), None);
}

#[test]
fn navigation_keeps_flags() {
    let current = Route::ComponentDemo { name: "a".to_string(), iframe: Some(true), dark_mode: Some(true) };
    assert_eq!(Route::home(&current), Route::Home { iframe: Some(true), dark_mode: Some(true) });
    assert_eq!(
        Route::component("dialog", &current),
        Route::ComponentDemo { name: "dialog".to_string(), iframe: Some(true), dark_mode: Some(true) }
    );
}

#[test]
fn titles_replace_underscores() {
    assert_eq!(component_title("alert_dialog"), "alert dialog");
    assert_eq!(component_title("a__b"), "a  b");
    assert_eq!(component_title("button"), "button");
}

#[test]
fn gallery_search_ignores_case() {
    assert!(gallery_shows("alert_dialog", ""));
    assert!(gallery_shows("alert_dialog", "DIALOG"));
    assert!(gallery_shows("Alert_Dialog", "dialog"));
    assert!(!gallery_shows("alert_dialog", "menu"));
    assert!(!gallery_shows("tabs", "tabsx"));
}

#[test]
fn run_search() {
    assert!(contains_run(&chars_of("hello"), &chars_of("ll")));
    assert!(contains_run(&chars_of("hello"), &chars_of("")));
    assert!(contains_run(&chars_of("hello"), &chars_of("hello")));
    assert!(!contains_run(&chars_of("hello"), &chars_of("lo!")));
}

#[test]
fn demo_lookup() {
    let names = vec!["button", "dialog", "dialog"];
    assert_eq!(find_by_name(&names, "dialog"), Some(1));
    assert_eq!(find_by_name(&names, "dia"), None);
    assert_eq!(find_by_name(&names, "menu"), None);
}

#[test]
fn block_variant_choice() {
    let variants = vec!["main", "compact"];
    assert_eq!(pick_block_variant(&variants, None), Some(0));
    assert_eq!(pick_block_variant(&variants, Some("compact")), Some(1));
    assert_eq!(pick_block_variant(&variants, Some("wide")), None);
}

#[test]
fn iframe_address() {
    assert_eq!(iframe_src(Some("/components"), "/component/block/?name=x"), "/components/component/block/?name=x");
    assert_eq!(iframe_src(None, "/component/block/?name=x"), "/component/block/?name=x");
}

#[test]
fn route_changes_are_posted_inside_iframe_only() {
    assert!(!posts_route_change(true, Some(true)));
    assert!(posts_route_change(false, Some(true)));
    assert!(!posts_route_change(false, Some(false)));
    assert!(!posts_route_change(false, None));
}

#[test]
fn languages() {
    assert_eq!(Language::English.flag(), "🇬🇧");
    assert_eq!(Language::German.localize_name(), "Deutsch");
    assert_eq!(Language::French.flag(), "🇫🇷");
    assert_eq!(Language::Spanish.localize_name(), "Español");
    assert_eq!(Language::French.display_name(), "🇫🇷 Français");
}

#[test]
fn theme_tab_and_labels() {
    assert!(ComponentType::Normal.shows_theme_css());
    assert!(!ComponentType::Block.shows_theme_css());
    assert_eq!(expand_code_label(true), "Expand code");
    assert_eq!(expand_code_label(false), "Collapse code");
}
