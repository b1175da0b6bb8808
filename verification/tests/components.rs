use egui_tracing::components::{LevelMenuButton, TargetMenuButton};
use egui_tracing::level::Level;
use egui_tracing::state::{LevelFilter, TargetFilter};

#[test]
fn default_menus_are_bound_to_nothing() {
    assert!(LevelMenuButton::default().state.is_none());
    assert!(TargetMenuButton::default().state.is_none());
}

#[test]
fn level_menu_click_flips_an_offered_level() {
    let mut filter = LevelFilter::with_static_max(Some(Level::Trace));
    assert!(LevelMenuButton::default().state(&mut filter).click(Some(Level::Trace), Level::Debug));
    assert!(filter.debug);
    assert!(filter.info && filter.warn && filter.error && !filter.trace);
    assert!(LevelMenuButton::default().state(&mut filter).click(Some(Level::Trace), Level::Debug));
    assert!(!filter.debug);
    assert!(LevelMenuButton::default().state(&mut filter).click(Some(Level::Info), Level::Error));
    assert!(!filter.error);
}

#[test]
fn level_menu_click_on_a_level_the_build_drops_changes_nothing() {
    let mut filter = LevelFilter::with_static_max(Some(Level::Info));
    assert!(!LevelMenuButton::default().state(&mut filter).click(Some(Level::Info), Level::Debug));
    assert!(!LevelMenuButton::default().state(&mut filter).click(Some(Level::Info), Level::Trace));
    assert!(!LevelMenuButton::default().state(&mut filter).click(None, Level::Error));
    assert!(!filter.debug && !filter.trace && filter.error);
}

#[test]
fn target_menu_adds_the_typed_pattern() {
    let mut filter = TargetFilter::new();
    filter.set_input("app::*");
    assert!(TargetMenuButton::default().state(&mut filter).add().is_ok());
    assert_eq!(filter.patterns(), &vec!["app::*".to_string()]);
    assert_eq!(filter.input(), "");
    filter.set_input("{oops");
    assert!(TargetMenuButton::default().state(&mut filter).add().is_err());
    assert_eq!(filter.input(), "{oops");
    assert_eq!(filter.patterns().len(), 1);
}

#[test]
fn target_menu_deletes_by_place() {
    let mut filter = TargetFilter::new();
    filter.add_pattern("a").unwrap();
    filter.add_pattern("b").unwrap();
    filter.add_pattern("c").unwrap();
    assert!(TargetMenuButton::default().state(&mut filter).delete(1));
    assert_eq!(filter.patterns(), &vec!["a".to_string(), "c".to_string()]);
    assert!(!TargetMenuButton::default().state(&mut filter).delete(2));
    assert_eq!(filter.patterns().len(), 2);
    assert_eq!(filter.matches("c").unwrap(), true);
    assert_eq!(filter.matches("b").unwrap(), false);
}
