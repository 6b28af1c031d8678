use kaomoji_store::entry::{Entry, StoreError};
use kaomoji_store::naming::Collection;
use kaomoji_store::store::{apply, validate, Request};

fn raw(symbol: &str) -> Entry {
    Entry { symbol: symbol.to_string(), tags: vec![" Tag ".to_string()], category: " c ".to_string() }
}

#[test]
fn upsert_request_with_blank_symbol_is_refused() {
    let r = validate(Request::UpsertCatalogEntry(raw("   ")));
    assert!(matches!(r, Err(StoreError::EmptySymbol)));
}

#[test]
fn upsert_request_is_sanitized() {
    match validate(Request::UpsertCatalogEntry(raw(" a "))).unwrap() {
        Request::UpsertCatalogEntry(e) => {
            assert_eq!(e.symbol, "a");
            assert_eq!(e.tags, vec!["tag".to_string()]);
            assert_eq!(e.category, "c");
        }
        _ => panic!("request changed kind"),
    }
}

#[test]
fn other_requests_pass_unchanged() {
    match validate(Request::RecordRecent(raw(" a "))).unwrap() {
        Request::RecordRecent(e) => assert_eq!(e.symbol, " a "),
        _ => panic!("request changed kind"),
    }
}

#[test]
fn requests_name_their_collection() {
    assert_eq!(Request::UpsertCatalogEntry(raw("a")).collection(), Collection::Catalog);
    assert_eq!(Request::RecordRecent(raw("a")).collection(), Collection::Recents);
    assert_eq!(Request::ToggleFavorite(raw("a")).collection(), Collection::Favorites);
}

#[test]
fn apply_toggle_reports_membership() {
    let (list, m) = apply(Request::ToggleFavorite(raw("a")), Vec::new());
    assert_eq!(list.len(), 1);
    assert_eq!(m, Some(true));
    let (list, m) = apply(Request::ToggleFavorite(raw("a")), list);
    assert!(list.is_empty());
    assert_eq!(m, Some(false));
}

#[test]
fn apply_upsert_and_record() {
    let (list, m) = apply(Request::UpsertCatalogEntry(raw("a")), vec![raw("b")]);
    assert_eq!(list.len(), 2);
    assert_eq!(list[1].symbol, "a");
    assert_eq!(m, None);
    let (list, m) = apply(Request::RecordRecent(raw("a")), vec![raw("b")]);
    assert_eq!(list[0].symbol, "a");
    assert_eq!(list.len(), 2);
    assert_eq!(m, None);
}
