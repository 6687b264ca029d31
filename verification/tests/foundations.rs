use cc_switch::binary64::Binary64;
use cc_switch::json::JsonValue;
use cc_switch::money::Money;
use cc_switch::numeral::{decimal_text, digits_text, hex_text, parse_i64};
use cc_switch::str_map::StrMap;
use cc_switch::sync_result::SessionSyncResult;
use cc_switch::text::{
    contains, find, join_texts, replace_char, same_text, same_text_any_case,
    skip_chars, split_text, starts_with, take_chars, to_lower, to_upper, trim, trim_end_of, trim_of,
    Strip,
};

#[test]
fn white_space_is_that_of_char() {
    for code in 0..=0x10ffff {
        if let Some(c) = char::from_u32(code) {
            assert_eq!(trim(&c.to_string()).is_empty(), c.is_whitespace());
        }
    }
}

#[test]
fn trimming_is_that_of_str() {
    for s in ["", " ", " a b ", "\u{a0}x\u{3000}", "ü", "\t\r\n", "/a//"] {
        assert_eq!(trim(s), s.trim());
        assert_eq!(trim_end_of(s, &Strip::Only('/')), s.trim_end_matches('/'));
        assert_eq!(trim_of(s, &Strip::Only('/')), s.trim_matches('/'));
    }
}

#[test]
fn case_is_that_of_ascii() {
    for s in ["", "AbZz@[`{", "ÄÖé", "GROK-bot"] {
        assert_eq!(to_lower(s), s.to_ascii_lowercase());
        assert_eq!(to_upper(s), s.to_ascii_uppercase());
    }
    assert!(same_text_any_case("aB", "Ab"));
    assert!(!same_text_any_case("ä", "Ä"));
    assert!(same_text("a", "a"));
    assert!(!same_text("a", "ab"));
}

#[test]
fn searching_splitting_and_joining() {
    assert_eq!(find("üabcabc", "bc"), Some(2));
    assert_eq!(find("abc", ""), Some(0));
    assert_eq!(find("ab", "abc"), None);
    assert!(contains("abc", "bc"));
    assert!(!contains("abc", "cb"));
    assert!(starts_with("abc", "ab"));
    assert!(!starts_with("abc", "b"));
    assert_eq!(skip_chars("üab", 1), "ab");
    assert_eq!(take_chars("üab", 2), "üa");
    assert_eq!(take_chars("a", 9), "a");
    assert_eq!(replace_char("a\\b\\", '\\', '/'), "a/b/");
    for s in ["", "-", "a-b", "-a--b-"] {
        let parts = split_text(s, '-');
        assert_eq!(parts, s.split('-').collect::<Vec<_>>());
        assert_eq!(join_texts(&parts, '-'), s);
    }
    assert_eq!(join_texts(&vec![], '-'), "");
}

#[test]
fn integers_are_those_of_std() {
    for s in [
        "", "+", "-", "0", "-0", "+7", "007", "9223372036854775807", "9223372036854775808",
        "-9223372036854775808", "-9223372036854775809", "1 ", "1_0", "٣", "--1",
        "00000000000000000000000000000000000000000000000000001",
    ] {
        assert_eq!(parse_i64(s), s.parse::<i64>().ok());
    }
    for n in [0, 7, -7, 10, 1234567890, i64::MIN, i64::MAX] {
        assert_eq!(decimal_text(n), n.to_string());
    }
    assert_eq!(digits_text(u128::MAX), u128::MAX.to_string());
    assert_eq!(hex_text(&[0, 15, 16, 255]), "000f10ff");
}

#[test]
fn binary64_is_f64() {
    let samples = [
        0.0, -0.0, 0.5, -0.5, 1.0, -1.0, 1.5, 1e12, 1e12 + 0.5, 1000000000000.0001, 4.5e15, 9e15,
        -9e15, 9223372036854775807.0, -9223372036854775808.0, 9.3e18, -9.3e18, 1e300, -1e300,
        f64::MIN_POSITIVE, 5e-324, f64::MAX, f64::INFINITY, f64::NEG_INFINITY, f64::NAN,
        1700000000.123,
    ];
    for x in samples {
        let b = Binary64 { bits: x.to_bits() };
        assert_eq!(b.is_finite(), x.is_finite());
        assert_eq!(b.is_positive(), x > 0.0);
        assert_eq!(b.to_whole(), x as i64);
        if x.is_finite() && x >= 0.0 {
            for bound in [0u64, 1, 1_000_000_000_000, 1_000_000_000_001] {
                assert_eq!(b.exceeds(bound), x > bound as f64);
            }
        }
    }
}

#[test]
fn maps_keep_one_value_per_key() {
    let mut map = StrMap::new();
    assert!(map.is_empty());
    map.insert("a".to_string(), 1);
    map.insert("b".to_string(), 2);
    map.insert("a".to_string(), 3);
    assert_eq!(map.len(), 2);
    assert_eq!(map.get("a"), Some(&3));
    assert_eq!(map.position("b"), Some(1));
    assert_eq!(map.key_at(1), "b");
    assert_eq!(map.value_at(1), &2);
    *map.value_at_mut(1) = 5;
    assert_eq!(map.get("b"), Some(&5));
    map.remove("a");
    assert_eq!(map.get("a"), None);
    assert_eq!(map.len(), 1);
    assert_eq!(map.take("b"), Some(5));
    let mut map = StrMap::new();
    map.insert("k".to_string(), 1);
    assert_eq!(map.into_entries(), vec![("k".to_string(), 1)]);
}

#[test]
fn json_members() {
    let mut map = StrMap::new();
    map.insert("t".to_string(), JsonValue::Text("x".to_string()));
    let value = JsonValue::Object(map);
    assert_eq!(value.get("t").and_then(|v| v.as_text()), Some(&"x".to_string()));
    assert_eq!(value.get("u"), None);
    assert!(value.as_object().is_some());
    assert!(JsonValue::Null.get("t").is_none());
    assert!(JsonValue::Bool(true).as_text().is_none());
    assert!(JsonValue::Array(vec![]).as_object().is_none());
}

#[test]
fn amounts_and_results() {
    assert!(Money {
        mantissa: 1,
        scale: 28
    }
    .is_positive());
    assert!(!Money::zero().is_positive());
    let nothing = SessionSyncResult::default();
    assert_eq!(nothing.imported + nothing.skipped + nothing.files_scanned, 0);
    assert!(nothing.errors.is_empty());
}
