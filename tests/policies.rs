use kaomoji_store::entry::Entry;
use kaomoji_store::policy::{position_of, record_recent, toggle_favorite, upsert, RECENTS_CAPACITY};

fn entry(symbol: &str, tag: &str, category: &str) -> Entry {
    Entry { symbol: symbol.to_string(), tags: vec![tag.to_string()], category: category.to_string() }
}

fn symbols(list: &[Entry]) -> Vec<String> {
    list.iter().map(|e| e.symbol.clone()).collect()
}

#[test]
fn upsert_appends_new_symbol() {
    let mut list = vec![entry("a", "t", "c")];
    upsert(&mut list, entry("b", "u", "d"));
    assert_eq!(symbols(&list), vec!["a", "b"]);
}

#[test]
fn upsert_twice_keeps_one_latest_in_place() {
    let mut list = vec![entry("a", "t", "c"), entry("b", "t", "c"), entry("c", "t", "c")];
    upsert(&mut list, entry("b", "first", "one"));
    upsert(&mut list, entry("b", "second", "two"));
    assert_eq!(symbols(&list), vec!["a", "b", "c"]);
    assert_eq!(list[1].tags, vec!["second".to_string()]);
    assert_eq!(list[1].category, "two");
}

#[test]
fn upsert_twice_new_symbol_single_entry() {
    let mut list = vec![entry("a", "t", "c")];
    upsert(&mut list, entry("z", "first", "one"));
    upsert(&mut list, entry("z", "second", "two"));
    assert_eq!(symbols(&list), vec!["a", "z"]);
    assert_eq!(list[1].tags, vec!["second".to_string()]);
}

#[test]
fn recents_bound_keeps_latest_twenty() {
    let mut list: Vec<Entry> = Vec::new();
    for i in 0..25 {
        record_recent(&mut list, entry(&format!("k{i}"), "t", "c"));
    }
    assert_eq!(list.len(), 20);
    assert_eq!(RECENTS_CAPACITY, 20);
    for (j, e) in list.iter().enumerate() {
        assert_eq!(e.symbol, format!("k{}", 24 - j));
    }
    for i in 0..5 {
        assert!(!list.iter().any(|e| e.symbol == format!("k{i}")));
    }
}

#[test]
fn recents_dedup_moves_to_front() {
    let mut list: Vec<Entry> = Vec::new();
    for s in ["a", "b", "c"] {
        record_recent(&mut list, entry(s, "t", "c"));
    }
    assert_eq!(symbols(&list), vec!["c", "b", "a"]);
    record_recent(&mut list, entry("a", "new", "n"));
    assert_eq!(symbols(&list), vec!["a", "c", "b"]);
    assert_eq!(list[0].tags, vec!["new".to_string()]);
}

#[test]
fn recents_dedup_removes_every_copy() {
    let mut list = vec![entry("a", "t", "c"), entry("b", "t", "c"), entry("a", "t", "c")];
    record_recent(&mut list, entry("a", "t", "c"));
    assert_eq!(symbols(&list), vec!["a", "b"]);
}

#[test]
fn favorites_toggle_adds_then_removes() {
    let mut list = vec![entry("x", "t", "c")];
    assert!(toggle_favorite(&mut list, entry("y", "t", "c")));
    assert_eq!(symbols(&list), vec!["x", "y"]);
    assert!(!toggle_favorite(&mut list, entry("y", "other", "d")));
    assert_eq!(symbols(&list), vec!["x"]);
}

#[test]
fn position_of_finds_first() {
    let list = vec![entry("a", "t", "c"), entry("b", "t", "c"), entry("b", "u", "c")];
    assert_eq!(position_of(&list, &"b".to_string()), Some(1));
    assert_eq!(position_of(&list, &"q".to_string()), None);
}
