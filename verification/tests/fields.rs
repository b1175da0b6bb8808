use egui_tracing::fields::{aggregate_fields, FieldMap};
use egui_tracing::name_order::{compare_names, NameOrder};
use egui_tracing::prefix::starts_with;

fn pairs(items: &[(&str, &str)]) -> Vec<(String, String)> {
    items.iter().map(|(k, v)| (k.to_string(), v.to_string())).collect()
}

fn contents(map: &FieldMap) -> Vec<(String, String)> {
    let mut out = Vec::new();
    for i in 0..map.len() {
        let (k, v) = map.entry(i);
        out.push((k.to_string(), v.to_string()));
    }
    out
}

#[test]
fn names_compare_bytewise() {
    assert_eq!(compare_names("a", "b"), NameOrder::Before);
    assert_eq!(compare_names("b", "a"), NameOrder::After);
    assert_eq!(compare_names("abc", "abc"), NameOrder::Same);
    assert_eq!(compare_names("ab", "abc"), NameOrder::Before);
    assert_eq!(compare_names("abc", "ab"), NameOrder::After);
    assert_eq!(compare_names("", ""), NameOrder::Same);
    assert_eq!(compare_names("", "a"), NameOrder::Before);
    assert_eq!(compare_names("Z", "a"), NameOrder::Before);
    assert_eq!(compare_names("z", "é"), NameOrder::Before);
    assert_eq!(compare_names("é", "e"), NameOrder::After);
}

#[test]
fn names_compare_as_str_ordering_does() {
    let names = ["", "a", "ab", "b", "message", "Message", "é", "日本", "z", "\u{10000}"];
    for a in names {
        for b in names {
            let expected = match a.cmp(b) {
                std::cmp::Ordering::Less => NameOrder::Before,
                std::cmp::Ordering::Equal => NameOrder::Same,
                std::cmp::Ordering::Greater => NameOrder::After,
            };
            assert_eq!(compare_names(a, b), expected);
        }
    }
}

#[test]
fn prefix_test_agrees_with_std() {
    let texts = ["", "m", "mod", "mod::a", "mod::ab", "é", "éa", "e", "日本語", "日本", "日"];
    for text in texts {
        for prefix in texts {
            assert_eq!(starts_with(text, prefix), text.starts_with(prefix));
        }
    }
}

#[test]
fn new_map_is_empty() {
    let map = FieldMap::new();
    assert_eq!(map.len(), 0);
    assert_eq!(map.get("x"), None);
    assert!(!map.contains_key("x"));
}

#[test]
fn insert_overwrites() {
    let mut map = FieldMap::new();
    map.insert("x", "1");
    map.insert("x", "2");
    assert_eq!(map.len(), 1);
    assert_eq!(map.get("x"), Some("2"));
}

#[test]
fn record_keeps_first_value() {
    let mut map = FieldMap::new();
    map.record("x", "1");
    map.record("x", "2");
    map.record("y", "3");
    assert_eq!(map.len(), 2);
    assert_eq!(map.get("x"), Some("1"));
    assert_eq!(map.get("y"), Some("3"));
}

#[test]
fn entries_are_kept_in_name_order() {
    let mut map = FieldMap::new();
    map.insert("z", "26");
    map.insert("a", "1");
    map.insert("m", "13");
    map.insert("b", "2");
    map.insert("m", "14");
    assert_eq!(contents(&map), pairs(&[("a", "1"), ("b", "2"), ("m", "14"), ("z", "26")]));
}

#[test]
fn from_records_first_wins() {
    let map = FieldMap::from_records(&pairs(&[("k", "first"), ("j", "x"), ("k", "second")]));
    assert_eq!(contents(&map), pairs(&[("j", "x"), ("k", "first")]));
}

#[test]
fn extend_prefers_the_other_map() {
    let mut map = FieldMap::from_records(&pairs(&[("x", "1"), ("y", "2")]));
    let other = FieldMap::from_records(&pairs(&[("y", "3"), ("z", "4")]));
    map.extend(&other);
    assert_eq!(contents(&map), pairs(&[("x", "1"), ("y", "3"), ("z", "4")]));
    assert_eq!(contents(&other), pairs(&[("y", "3"), ("z", "4")]));
}

#[test]
fn clone_copies_every_field() {
    let map = FieldMap::from_records(&pairs(&[("b", "2"), ("a", "1")]));
    let copy = map.clone();
    assert_eq!(contents(&copy), contents(&map));
}

#[test]
fn scope_aggregation_inner_overrides_outer_and_event_overrides_all() {
    let a = FieldMap::from_records(&pairs(&[("x", "1"), ("y", "2")]));
    let b = FieldMap::from_records(&pairs(&[("y", "3"), ("z", "4")]));
    let own = FieldMap::from_records(&pairs(&[("z", "5"), ("w", "6")]));
    let merged = aggregate_fields(&vec![&a, &b], &own);
    assert_eq!(merged.len(), 4);
    assert_eq!(merged.get("x"), Some("1"));
    assert_eq!(merged.get("y"), Some("3"));
    assert_eq!(merged.get("z"), Some("5"));
    assert_eq!(merged.get("w"), Some("6"));
    assert_eq!(contents(&merged), pairs(&[("w", "6"), ("x", "1"), ("y", "3"), ("z", "5")]));
}

#[test]
fn aggregation_without_spans_yields_own_fields() {
    let own = FieldMap::from_records(&pairs(&[("message", "hello"), ("n", "1")]));
    let merged = aggregate_fields(&Vec::new(), &own);
    assert_eq!(contents(&merged), pairs(&[("message", "hello"), ("n", "1")]));
}

#[test]
fn aggregation_without_own_fields_yields_scope() {
    let a = FieldMap::from_records(&pairs(&[("x", "1")]));
    let b = FieldMap::from_records(&pairs(&[("x", "2")]));
    let merged = aggregate_fields(&vec![&a, &b], &FieldMap::new());
    assert_eq!(contents(&merged), pairs(&[("x", "2")]));
    let merged = aggregate_fields(&vec![&b, &a], &FieldMap::new());
    assert_eq!(contents(&merged), pairs(&[("x", "1")]));
}
