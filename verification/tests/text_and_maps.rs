use iceman::cli::{Identifier, MetadataTable};
use iceman::json::{json_object, json_quote, json_string_list};
use iceman::sorted::SortedMap;
use iceman::props::StrMap;
use iceman::text::{replace, split_max, text_less, to_lowercase, trim_str};

#[test]
fn sorted_map_keeps_keys_ascending() {
    let mut m = SortedMap::new();
    m.insert("b".to_string(), 1);
    m.insert("a".to_string(), 2);
    m.insert("ab".to_string(), 3);
    m.insert("b".to_string(), 4);
    let keys: Vec<&str> = m.entries().iter().map(|(k, _)| k.as_str()).collect();
    assert_eq!(keys, vec!["a", "ab", "b"]);
    assert_eq!(m.get("b"), Some(&4));
    assert_eq!(m.remove("a"), Some(2));
    assert_eq!(m.get("a"), None);
    assert_eq!(m.len(), 2);
}

#[test]
fn str_map_insert_then_get() {
    let mut m = StrMap::new();
    m.insert("k".to_string(), "v1".to_string());
    m.insert("k".to_string(), "v2".to_string());
    assert_eq!(m.get("k").unwrap(), "v2");
    assert_eq!(m.len(), 1);
    assert_eq!(m.remove("k"), Some("v2".to_string()));
    assert!(m.is_empty());
}

#[test]
fn text_order_matches_string_order() {
    let words = ["", "a", "ab", "b", "Z", "é", "éa", "10", "2"];
    for x in words {
        for y in words {
            assert_eq!(text_less(x, y), x < y, "{x:?} < {y:?}");
        }
    }
}

#[test]
fn identifier_parts_round_trip() {
    let id = Identifier::parse("db.schema.table");
    assert_eq!(id.parts(), &["db".to_string(), "schema".to_string(), "table".to_string()]);
    assert_eq!(id.as_str(), "db.schema.table");
    assert_eq!(id.parts().join("."), "db.schema.table");
}

#[test]
fn text_helpers() {
    assert_eq!(replace("a__b__c", "__", "."), "a.b.c");
    assert_eq!(trim_str("  x y \n"), "x y");
    assert_eq!(to_lowercase("ÄBC"), "äbc");
    assert_eq!(split_max("a.b", ".", 0), vec!["a.b"]);
}

#[test]
fn json_helpers() {
    assert_eq!(json_quote("a\"b\n"), "\"a\\\"b\\n\"");
    assert_eq!(json_string_list(&["x".to_string(), "y".to_string()]), "[\"x\",\"y\"]");
    assert_eq!(json_string_list(&[]), "[]");
    assert_eq!(json_object(&[("k".to_string(), "1".to_string())]), "{\"k\":1}");
    assert_eq!(json_object(&[]), "{}");
}

#[test]
fn json_quote_escapes_quotes_backslashes_and_controls() {
    assert_eq!(json_quote(""), "\"\"");
    assert_eq!(json_quote("a\\b\tc\r\u{8}\u{c}"), "\"a\\\\b\\tc\\r\\b\\f\"");
    assert_eq!(json_quote("\u{1}\u{1f}"), "\"\\u0001\\u001f\"");
    assert_eq!(json_quote("é/ü\u{7f}"), "\"é/ü\u{7f}\"");
}

#[test]
fn identifier_parts_follow_the_dots() {
    for s in ["a", "a.b", "a..b", ".x.", ""] {
        let id = Identifier::parse(s);
        assert_eq!(id.parts().len(), s.matches('.').count() + 1);
        assert!(id.parts().iter().all(|p| !p.contains('.')));
    }
}

#[test]
fn split_parts_hold_no_delimiter_but_an_unsplit_rest() {
    let parts = split_max("a__b__c__d", "__", 2);
    assert_eq!(parts, vec!["a", "b", "c__d"]);
    assert!(parts[..2].iter().all(|p| !p.contains("__")));
    assert!(split_max("a__b", "__", 5).iter().all(|p| !p.contains("__")));
}

#[test]
fn view_names_are_distinct_lowercase_words() {
    let names: Vec<&str> = MetadataTable::all_tables().iter().map(|t| t.sql_name()).collect();
    assert_eq!(names.len(), 14);
    for (i, a) in names.iter().enumerate() {
        assert!(a.chars().all(|c| c.is_ascii_lowercase() || c == '_'));
        assert!(names[i + 1..].iter().all(|b| b != a));
    }
}
