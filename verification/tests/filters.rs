use egui_tracing::collector::EventCollector;
use egui_tracing::event::Timestamp;
use egui_tracing::level::Level;
use egui_tracing::logs::Logs;
use egui_tracing::state::{LevelFilter, LogsState, TargetFilter};
use egui_tracing::string::{ellipsize, Ellipse};

const AT: Timestamp = Timestamp { seconds: 1, nanos: 0, offset_seconds: 0 };

#[test]
fn patterns_match_with_or_semantics() {
    let mut filter = TargetFilter::new();
    assert!(filter.add_pattern("mod::a").is_ok());
    assert!(filter.add_pattern("mod::b*").is_ok());
    assert_eq!(filter.matches("mod::a").unwrap(), true);
    assert_eq!(filter.matches("mod::bcd").unwrap(), true);
    assert_eq!(filter.matches("mod::c").unwrap(), false);
    assert_eq!(filter.matches("mod::ab").unwrap(), false);
    assert_eq!(filter.matches("mod::b").unwrap(), true);
}

#[test]
fn empty_pattern_list_matches_nothing() {
    let mut filter = TargetFilter::new();
    assert!(!filter.is_match("mod::a"));
    assert_eq!(filter.matches("mod::a").unwrap(), false);
    assert_eq!(filter.matches("").unwrap(), false);
    assert!(filter.has_matcher());
    assert!(!filter.is_match("mod::a"));
}

#[test]
fn malformed_pattern_is_reported_and_changes_nothing() {
    let mut filter = TargetFilter::new();
    filter.add_pattern("ok::*").unwrap();
    filter.refresh().unwrap();
    let error = filter.add_pattern("[unclosed").unwrap_err();
    assert!(!error.message.is_empty());
    assert_eq!(filter.patterns(), &vec!["ok::*".to_string()]);
    assert!(filter.has_matcher());
    assert!(filter.add_pattern("{a,b").is_err());
    assert!(filter.add_pattern("a}").is_err());
    assert_eq!(filter.patterns().len(), 1);
    assert_eq!(filter.matches("ok::x").unwrap(), true);
}

#[test]
fn mutation_drops_the_matcher_and_match_rebuilds_it() {
    let mut filter = TargetFilter::new();
    filter.add_pattern("a*").unwrap();
    assert!(!filter.has_matcher());
    assert!(!filter.is_match("abc"));
    assert_eq!(filter.matches("abc").unwrap(), true);
    assert!(filter.has_matcher());
    assert!(filter.is_match("abc"));
    filter.add_pattern("b*").unwrap();
    assert!(!filter.has_matcher());
    assert_eq!(filter.matches("bcd").unwrap(), true);
    assert_eq!(filter.remove_pattern(0), Some("a*".to_string()));
    assert!(!filter.has_matcher());
    assert_eq!(filter.matches("abc").unwrap(), false);
    assert_eq!(filter.matches("bcd").unwrap(), true);
}

#[test]
fn remove_pattern_past_the_end_changes_nothing() {
    let mut filter = TargetFilter::new();
    filter.add_pattern("a").unwrap();
    filter.add_pattern("a").unwrap();
    filter.refresh().unwrap();
    assert_eq!(filter.remove_pattern(2), None);
    assert!(filter.has_matcher());
    assert_eq!(filter.patterns(), &vec!["a".to_string(), "a".to_string()]);
    assert_eq!(filter.remove_pattern(1), Some("a".to_string()));
    assert_eq!(filter.patterns(), &vec!["a".to_string()]);
}

#[test]
fn submitted_input_becomes_a_pattern() {
    let mut filter = TargetFilter::new();
    filter.set_input("eframe::*");
    assert_eq!(filter.input(), "eframe::*");
    filter.submit_input().unwrap();
    assert_eq!(filter.input(), "");
    assert_eq!(filter.patterns(), &vec!["eframe::*".to_string()]);
    filter.set_input("[");
    assert!(filter.submit_input().is_err());
    assert_eq!(filter.input(), "[");
    assert_eq!(filter.patterns().len(), 1);
}

#[test]
fn selection_shows_wanted_levels_and_leaves_out_matched_targets() {
    let mut collector = EventCollector::new();
    let emitted = [
        (Level::Info, "app::ui"),
        (Level::Debug, "app::ui"),
        (Level::Warn, "noisy::io"),
        (Level::Error, "app::db"),
        (Level::Trace, "noisy::io"),
        (Level::Warn, "app::db"),
    ];
    for (level, target) in emitted {
        collector.on_event_at(level, target, &Vec::new(), &Vec::new(), AT);
    }
    let mut logs = Logs::new(&collector);
    logs.state.level_filter.set(Level::Info, true);
    logs.state.level_filter.set(Level::Warn, true);
    logs.state.level_filter.set(Level::Error, true);
    logs.select(collector.events()).unwrap();
    assert_eq!(logs.indices, vec![0, 2, 3, 5]);
    logs.state.target_filter.add_pattern("noisy::*").unwrap();
    logs.select(collector.events()).unwrap();
    assert_eq!(logs.indices, vec![0, 3, 5]);
    logs.state.level_filter.set(Level::Warn, false);
    logs.state.level_filter.set(Level::Debug, true);
    logs.select(collector.events()).unwrap();
    assert_eq!(logs.indices, vec![0, 1, 3]);
    collector.clear();
    logs.select(collector.events()).unwrap();
    assert!(logs.indices.is_empty());
}

#[test]
fn level_selection_is_handed_to_the_collector() {
    let mut collector = EventCollector::new();
    let mut logs = Logs::new(&collector);
    logs.state.level_filter.set(Level::Info, true);
    logs.state.level_filter.set(Level::Warn, true);
    logs.state.level_filter.set(Level::Error, true);
    assert!(logs.apply_level_filter(&mut collector));
    assert_eq!(collector.level(), Some(Level::Info));
    assert!(!logs.apply_level_filter(&mut collector));
    logs.state.level_filter.set(Level::Trace, true);
    assert!(logs.apply_level_filter(&mut collector));
    assert_eq!(collector.level(), Some(Level::Trace));
}

#[test]
fn short_text_is_not_truncated() {
    assert_eq!("hello".truncate_graphemes(5), "hello");
    assert_eq!("hello".truncate_graphemes(10), "hello");
    assert_eq!("".truncate_graphemes(0), "");
    assert_eq!(String::from("hello").truncate_graphemes(5), "hello");
}

#[test]
fn long_text_keeps_first_clusters_and_gets_dots() {
    assert_eq!("hello world".truncate_graphemes(5), "hello...");
    assert_eq!(String::from("hello world").truncate_graphemes(0), "...");
    assert_eq!("abc".truncate_graphemes(2), "ab...");
}

#[test]
fn truncation_counts_clusters_not_chars() {
    let text = "e\u{301}e\u{301}e\u{301}e\u{301}";
    assert_eq!(text.truncate_graphemes(2), "e\u{301}e\u{301}...");
    assert_eq!("a\r\nb🇷🇺🇸🇹".truncate_graphemes(4), "a\r\nb🇷🇺...");
}

#[test]
fn truncation_is_decided_by_byte_length() {
    assert_eq!("ééé".truncate_graphemes(6), "ééé");
    assert_eq!("ééé".truncate_graphemes(4), "ééé...");
    assert_eq!("ééé".truncate_graphemes(2), "éé...");
}

#[test]
fn ellipsize_joins_the_first_clusters() {
    let clusters = vec!["a".to_string(), "bc".to_string(), "d".to_string()];
    assert_eq!(ellipsize(&clusters, 0), "...");
    assert_eq!(ellipsize(&clusters, 2), "abc...");
    assert_eq!(ellipsize(&clusters, 3), "abcd...");
    assert_eq!(ellipsize(&clusters, 9), "abcd...");
}

#[test]
fn initial_selection_has_nothing_typed_and_no_pattern() {
    let state = LogsState::new();
    assert_eq!(state.target_filter.input(), "");
    assert!(state.target_filter.patterns().is_empty());
    assert!(!state.target_filter.has_matcher());
    let initial = LevelFilter::default();
    assert_eq!(state.level_filter.trace, initial.trace);
    assert_eq!(state.level_filter.debug, initial.debug);
    assert_eq!(state.level_filter.info, initial.info);
    assert_eq!(state.level_filter.warn, initial.warn);
    assert_eq!(state.level_filter.error, initial.error);
}

#[test]
fn new_viewer_starts_from_the_initial_selection() {
    let collector = EventCollector::new().max_log_entries(8);
    let logs = Logs::new(&collector);
    assert!(logs.indices.is_empty());
    assert_eq!(logs.state.target_filter.input(), "");
    assert!(logs.state.target_filter.patterns().is_empty());
    assert!(!logs.state.target_filter.has_matcher());
    assert!(!logs.state.level_filter.trace && !logs.state.level_filter.debug);
    assert_eq!(logs.state.level_filter.max_level(), LevelFilter::default().max_level());
}

#[test]
fn validated_patterns_compile_and_recompile_alike() {
    let mut filter = TargetFilter::new();
    for text in ["mod::a", "mod::b*", "*.rs", "src/**/foo.rs", "{x,y}::z", "[a-c]?"] {
        filter.add_pattern(text).unwrap();
    }
    assert!(filter.refresh().is_ok());
    assert!(filter.has_matcher());
    assert!(filter.refresh().is_ok());
    assert_eq!(filter.patterns().len(), 6);
    assert_eq!(filter.matches("y::z").unwrap(), true);
    assert_eq!(filter.matches("b7").unwrap(), true);
    assert_eq!(filter.matches("d7").unwrap(), false);
}
