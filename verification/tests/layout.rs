use groomer::layout::{
    classify, index_namespace, is_plain, prefixed, prefixed_idx, prefixed_meta, split_namespace,
    pattern_of, PhysicalKey, ALL_INDICES, INDEX_PREFIX, META_PREFIX, SEPARATOR,
};

#[test]
fn the_layout_has_its_fixed_marks() {
    assert_eq!(SEPARATOR, ':');
    assert_eq!(META_PREFIX, "meta_");
    assert_eq!(INDEX_PREFIX, "idx_");
}

#[test]
fn primary_key_is_namespace_separator_key() {
    assert_eq!(prefixed("test_ns", "k"), "test_ns:k");
    assert_eq!(prefixed("", ""), ":");
}

#[test]
fn meta_key_carries_the_meta_prefix() {
    assert_eq!(prefixed_meta("test_ns", "k"), "meta_test_ns:k");
}

#[test]
fn index_key_carries_prefix_name_and_value() {
    assert_eq!(prefixed_idx("test_ns", "first", "x"), "idx_test_ns:first:x");
}

#[test]
fn split_namespace_gives_the_first_two_parts() {
    assert_eq!(split_namespace("test_ns:k"), Some(("test_ns", "k")));
    assert_eq!(split_namespace("a:b:c"), Some(("a", "b")));
    assert_eq!(split_namespace(":"), Some(("", "")));
    assert_eq!(split_namespace("a:"), Some(("a", "")));
    assert_eq!(split_namespace(":b"), Some(("", "b")));
}

#[test]
fn split_namespace_finds_nothing_without_a_separator() {
    assert_eq!(split_namespace("nothing"), None);
    assert_eq!(split_namespace(""), None);
}

#[test]
fn split_namespace_counts_characters_not_bytes() {
    assert_eq!(split_namespace("näme:schlüssel"), Some(("näme", "schlüssel")));
}

#[test]
fn split_namespace_undoes_prefixed() {
    let physical = prefixed("test_ns", "k");
    assert_eq!(split_namespace(&physical), Some(("test_ns", "k")));
}

#[test]
fn classify_tells_primary_from_meta() {
    assert_eq!(
        classify("test_ns:k"),
        Some(PhysicalKey::Primary { namespace: "test_ns".to_string(), key: "k".to_string() })
    );
    assert_eq!(
        classify("meta_test_ns:k"),
        Some(PhysicalKey::Meta { namespace: "test_ns".to_string(), key: "k".to_string() })
    );
}

#[test]
fn classify_undoes_the_layout() {
    assert_eq!(
        classify(&prefixed("ns", "key")),
        Some(PhysicalKey::Primary { namespace: "ns".to_string(), key: "key".to_string() })
    );
    assert_eq!(
        classify(&prefixed_meta("ns", "key")),
        Some(PhysicalKey::Meta { namespace: "ns".to_string(), key: "key".to_string() })
    );
}

#[test]
fn classify_finds_nothing_without_a_separator() {
    assert_eq!(classify("events"), None);
    assert_eq!(classify("meta_missing"), None);
    assert_eq!(classify("meta_"), None);
    assert_eq!(classify(""), None);
}

#[test]
fn classify_takes_a_short_key_for_a_primary_key() {
    assert_eq!(
        classify("met:a"),
        Some(PhysicalKey::Primary { namespace: "met".to_string(), key: "a".to_string() })
    );
}

#[test]
fn index_namespace_stands_behind_the_prefix() {
    assert_eq!(index_namespace("idx_test_ns:first:x"), Some("test_ns".to_string()));
    assert_eq!(index_namespace(&prefixed_idx("ns", "name", "value")), Some("ns".to_string()));
    assert_eq!(index_namespace("idx_alone"), Some("alone".to_string()));
    assert_eq!(index_namespace("idx_"), Some("".to_string()));
}

#[test]
fn index_namespace_wants_the_prefix() {
    assert_eq!(index_namespace("test_ns:first:x"), None);
    assert_eq!(index_namespace("id"), None);
    assert_eq!(index_namespace(""), None);
}

#[test]
fn is_plain_looks_for_the_separator() {
    assert!(is_plain("test_ns"));
    assert!(is_plain(""));
    assert!(!is_plain("a:b"));
    assert!(!is_plain(":"));
    assert!(!is_plain("schlüssel:"));
}

#[test]
fn patterns_match_the_keys_of_index_sets() {
    assert_eq!(ALL_INDICES, "idx_*");
    assert_eq!(pattern_of("test_ns"), "idx_test_ns:*");
}
