use kaomoji_store::naming::{backup_file_name, decimal_text, temp_file_name, Collection};

#[test]
fn decimal_text_values() {
    assert_eq!(decimal_text(0), "0");
    assert_eq!(decimal_text(7), "7");
    assert_eq!(decimal_text(10), "10");
    assert_eq!(decimal_text(1234567890), "1234567890");
    assert_eq!(decimal_text(u128::MAX), u128::MAX.to_string());
}

#[test]
fn temp_name_shape() {
    assert_eq!(temp_file_name("kaomojis.user.json", 42, 1700000000123456789), "kaomojis.user.json.42.1700000000123456789.tmp");
}

#[test]
fn backup_name_shape() {
    assert_eq!(backup_file_name("kaomojis.recents.json", 1700000000), "kaomojis.recents.json.corrupt.1700000000");
}

#[test]
fn collection_file_names() {
    assert_eq!(Collection::Catalog.file_name(), "kaomojis.user.json");
    assert_eq!(Collection::Recents.file_name(), "kaomojis.recents.json");
    assert_eq!(Collection::Favorites.file_name(), "kaomojis.favorites.json");
}

#[test]
fn temp_names_differ_by_process_and_stamp() {
    let a = temp_file_name("f.json", 1, 23);
    let b = temp_file_name("f.json", 12, 3);
    let c = temp_file_name("f.json", 1, 24);
    assert_ne!(a, b);
    assert_ne!(a, c);
    assert_eq!(a, temp_file_name("f.json", 1, 23));
}
