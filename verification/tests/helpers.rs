use deployer::json::JsonValue;
use deployer::jsonpath::find_char;
use deployer::lookup::find_named;
use deployer::types::{copy_bytes, SolType, TypedValue};

#[test]
fn the_first_entry_of_a_name_is_found() {
    let entries = vec![
        ("a".to_string(), 1u8),
        ("b".to_string(), 2u8),
        ("a".to_string(), 3u8),
    ];
    assert_eq!(find_named(&entries, "a"), Some(0));
    assert_eq!(find_named(&entries, "b"), Some(1));
    assert_eq!(find_named(&entries, "c"), None);
    assert_eq!(find_named(&Vec::<(String, u8)>::new(), "a"), None);
}

#[test]
fn the_first_character_in_a_range_is_found() {
    assert_eq!(find_char("a.b.c", 0, 5, '.'), Some(1));
    assert_eq!(find_char("a.b.c", 2, 5, '.'), Some(3));
    assert_eq!(find_char("a.b.c", 2, 3, '.'), None);
    assert_eq!(find_char("a.b.c", 4, 5, '.'), None);
    assert_eq!(find_char("", 0, 0, '.'), None);
    assert_eq!(find_char("päth[0]", 0, 7, '['), Some(4));
}

#[test]
fn lists_of_values_are_checked_and_copied() {
    let good = vec![TypedValue::Bool(true), TypedValue::Address(vec![0; 20])];
    let bad = vec![TypedValue::Bool(true), TypedValue::Address(vec![0; 21])];
    assert!(TypedValue::all_well_formed(&good));
    assert!(!TypedValue::all_well_formed(&bad));
    assert!(TypedValue::all_well_formed(&vec![]));
    assert_eq!(TypedValue::duplicate_all(&bad), bad);
    assert_eq!(copy_bytes(&vec![1, 2, 3]), vec![1, 2, 3]);
}

#[test]
fn the_types_of_the_slots_have_their_names() {
    assert_eq!(SolType::address().name, "address");
    assert_eq!(SolType::bytes32().name, "bytes32");
    assert_eq!(SolType::uint256().name, "uint256");
    assert_eq!(SolType::bytes().name, "bytes");
    assert_eq!(SolType::string().name, "string");
    assert_eq!(SolType::new("int8").name, "int8");
}

#[test]
fn parts_of_documents_are_copied() {
    let items = vec![JsonValue::Null, JsonValue::Number("1".to_string())];
    assert_eq!(JsonValue::duplicate_items(&items), items);
    let fields = vec![("k".to_string(), JsonValue::Array(items, "[null,1]".to_string()))];
    assert_eq!(JsonValue::duplicate_fields(&fields), fields);
}
