use redis_pp::shape::{
    classify, extract_strings, normalize, KeyKind, PPError, ReplyItem, Shape, ValueKind,
};

fn strings(items: &[&str]) -> Vec<String> {
    items.iter().map(|s| s.to_string()).collect()
}

#[test]
fn absent_key_is_null_not_error() {
    assert_eq!(classify(KeyKind::Absent), Ok(None));
}

#[test]
fn unsupported_kind_is_wrong_type() {
    assert_eq!(classify(KeyKind::Unsupported), Err(PPError::WrongType));
}

#[test]
fn supported_kinds_classify() {
    assert_eq!(classify(KeyKind::Mapping), Ok(Some(ValueKind::Mapping)));
    assert_eq!(classify(KeyKind::Sequence), Ok(Some(ValueKind::Sequence)));
    assert_eq!(classify(KeyKind::Collection), Ok(Some(ValueKind::Collection)));
}

#[test]
fn odd_mapping_reply_is_malformed() {
    let r = normalize(ValueKind::Mapping, strings(&["name", "alice", "age"]));
    assert!(matches!(r, Err(PPError::MalformedReply)));
}

#[test]
fn mapping_pairs_in_reply_order() {
    match normalize(ValueKind::Mapping, strings(&["name", "alice", "age", "30"])) {
        Ok(Shape::Mapping(es)) => assert_eq!(
            es,
            vec![
                ("name".to_string(), "alice".to_string()),
                ("age".to_string(), "30".to_string())
            ]
        ),
        _ => panic!("expected a mapping"),
    }
}

#[test]
fn empty_mapping_reply() {
    match normalize(ValueKind::Mapping, Vec::new()) {
        Ok(Shape::Mapping(es)) => assert!(es.is_empty()),
        _ => panic!("expected a mapping"),
    }
}

#[test]
fn repeated_key_keeps_first_place_and_last_value() {
    match normalize(ValueKind::Mapping, strings(&["a", "1", "b", "2", "a", "3"])) {
        Ok(Shape::Mapping(es)) => assert_eq!(
            es,
            vec![("a".to_string(), "3".to_string()), ("b".to_string(), "2".to_string())]
        ),
        _ => panic!("expected a mapping"),
    }
}

#[test]
fn sequence_keeps_duplicates() {
    match normalize(ValueKind::Sequence, strings(&["a", "b", "a"])) {
        Ok(Shape::Sequence(items)) => assert_eq!(items, strings(&["a", "b", "a"])),
        _ => panic!("expected a sequence"),
    }
}

#[test]
fn collection_collapses_duplicates() {
    match normalize(ValueKind::Collection, strings(&["x", "y", "x"])) {
        Ok(Shape::Collection(items)) => assert_eq!(items, strings(&["x", "y"])),
        _ => panic!("expected a collection"),
    }
}

#[test]
fn extract_strings_skips_other_elements() {
    let items = vec![
        ReplyItem::Text("a".to_string()),
        ReplyItem::Other,
        ReplyItem::Text("b".to_string()),
    ];
    assert_eq!(extract_strings(items), strings(&["a", "b"]));
}
