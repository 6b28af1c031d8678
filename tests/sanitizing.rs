use kaomoji_store::entry::{entry_from_normalized, keep_nonempty, sanitize, Entry, StoreError};

fn raw(symbol: &str, tags: &[&str], category: &str) -> Entry {
    Entry {
        symbol: symbol.to_string(),
        tags: tags.iter().map(|t| t.to_string()).collect(),
        category: category.to_string(),
    }
}

#[test]
fn sanitize_example_record() {
    let e = sanitize(&raw("(^_^)", &["  Happy ", " "], " Positive ")).unwrap();
    assert_eq!(e.symbol, "(^_^)");
    assert_eq!(e.tags, vec!["happy".to_string()]);
    assert_eq!(e.category, "Positive");
}

#[test]
fn sanitize_rejects_blank_symbol() {
    let r = sanitize(&raw("   ", &["a"], "c"));
    assert!(matches!(r, Err(StoreError::EmptySymbol)));
}

#[test]
fn sanitize_rejects_empty_symbol() {
    assert!(matches!(sanitize(&raw("", &[], "")), Err(StoreError::EmptySymbol)));
}

#[test]
fn sanitize_trims_symbol_and_keeps_empty_category() {
    let e = sanitize(&raw("  (>_<)\t", &[], "   ")).unwrap();
    assert_eq!(e.symbol, "(>_<)");
    assert!(e.tags.is_empty());
    assert_eq!(e.category, "");
}

#[test]
fn sanitize_keeps_tag_order_and_duplicates() {
    let e = sanitize(&raw("x", &[" B", "", "a ", "\n", "B"], "k")).unwrap();
    assert_eq!(e.tags, vec!["b".to_string(), "a".to_string(), "b".to_string()]);
}

#[test]
fn sanitize_lowercases_beyond_ascii() {
    let e = sanitize(&raw("x", &["ÄRGER"], "")).unwrap();
    assert_eq!(e.tags, vec!["ärger".to_string()]);
}

#[test]
fn keep_nonempty_drops_only_empty() {
    let r = keep_nonempty(vec!["a".to_string(), "".to_string(), " ".to_string(), "b".to_string()]);
    assert_eq!(r, vec!["a".to_string(), " ".to_string(), "b".to_string()]);
}

#[test]
fn entry_from_normalized_refuses_empty_symbol() {
    let r = entry_from_normalized(String::new(), vec!["a".to_string()], String::new());
    assert!(matches!(r, Err(StoreError::EmptySymbol)));
    let e = entry_from_normalized("s".to_string(), vec!["".to_string(), "a".to_string()], "c".to_string())
        .unwrap();
    assert_eq!(e.tags, vec!["a".to_string()]);
}

#[test]
fn error_messages() {
    assert_eq!(StoreError::Io("disk full".to_string()).message(), "disk full");
    assert!(!StoreError::EmptySymbol.message().is_empty());
}

#[test]
fn clone_entry_copies_fields() {
    let e = raw("s", &["t1", "t2"], "c");
    let c = e.clone_entry();
    assert_eq!(c.symbol, "s");
    assert_eq!(c.tags, e.tags);
    assert_eq!(c.category, "c");
}
