use herdr_navigator::order::{sort_texts, text_precedes};
use herdr_navigator::tables::{NumberMap, TextMap};
use herdr_navigator::text::{
    blank, chars_of, concat3, decimal_text, hexadecimal_text, is_internal_id, normalize, parse_i64,
    same_text, signed_text, text_of,
};

#[test]
fn decimal_numerals() {
    assert_eq!(decimal_text(0), "0");
    assert_eq!(decimal_text(1730000000123456789), "1730000000123456789");
    assert_eq!(decimal_text(u128::MAX), u128::MAX.to_string());
    assert_eq!(signed_text(0), "0");
    assert_eq!(signed_text(-42), "-42");
    assert_eq!(signed_text(i64::MIN), "-9223372036854775808");
    assert_eq!(signed_text(i64::MAX), "9223372036854775807");
}

#[test]
fn numerals_read_back() {
    for n in [0, 1, -1, 99, i64::MIN, i64::MAX] {
        assert_eq!(parse_i64(&signed_text(n)), Some(n));
    }
}

#[test]
fn integers_are_read_as_by_the_standard_library() {
    let samples = [
        "", "+", "-", "0", "-0", "+0", "+5", "007", "-007", " 5", "5 ", "5a", "--5", "+-5", "1_0",
        "9223372036854775807", "9223372036854775808", "-9223372036854775808",
        "-9223372036854775809", "00000000000000000000000001", "\u{0661}",
    ];
    for text in samples {
        assert_eq!(parse_i64(text), text.parse::<i64>().ok(), "{text:?}");
    }
}

#[test]
fn hexadecimal_numerals() {
    assert_eq!(hexadecimal_text(0, 8), "00000000");
    assert_eq!(hexadecimal_text(0xdeadbeef, 8), "deadbeef");
    assert_eq!(hexadecimal_text(5381, 8), "00001505");
    assert_eq!(hexadecimal_text(0xabc, 2), "bc");
}

#[test]
fn internal_ids_are_marked() {
    assert!(is_internal_id("p_1"));
    assert!(is_internal_id("p_"));
    assert!(!is_internal_id("p"));
    assert!(!is_internal_id(""));
    assert!(!is_internal_id("ws:p_1"));
}

#[test]
fn blank_texts_are_those_that_trim_to_nothing() {
    for text in ["", " ", "\n", "\t\r\n", "\u{00a0}", "\u{2003}\u{3000}", "\u{200b}", "x", " {} "] {
        assert_eq!(blank(text), text.trim().is_empty(), "{text:?}");
    }
}

#[test]
fn white_space_is_that_of_the_standard_library() {
    let mut code: u32 = 0;
    while code <= 0x10ffff {
        if let Some(c) = char::from_u32(code) {
            if c.is_whitespace() || code < 0x3100 {
                let text = String::from(c);
                assert_eq!(blank(&text), c.is_whitespace(), "{code:x}");
            }
        }
        code += 1;
    }
}

#[test]
fn separators_become_underscores() {
    assert_eq!(normalize("ws-1:p2"), "ws_1_p2");
    assert_eq!(normalize("ws-1:p2"), "ws-1:p2".replace(['-', ':'], "_"));
    assert_eq!(normalize(""), "");
    assert_eq!(normalize("a_b"), "a_b");
}

#[test]
fn texts_are_taken_apart_and_put_together() {
    assert!(same_text("abc", "abc"));
    assert!(!same_text("abc", "abd"));
    assert_eq!(concat3("a", "", "c"), "ac");
    assert_eq!(text_of(&chars_of("h\u{e9}!")), "h\u{e9}!");
}

#[test]
fn texts_are_sorted_as_by_the_standard_library() {
    let given: Vec<String> = ["w:p2", "w:p10", "", "w:p1", "\u{e9}", "Z", "w:p2", "\u{10000}", "\u{ffff}"]
        .iter()
        .map(|s| s.to_string())
        .collect();
    let mut expected = given.clone();
    expected.sort();
    assert_eq!(sort_texts(&given), expected);
    assert!(text_precedes("a", "a"));
    assert!(text_precedes("a", "ab"));
    assert!(!text_precedes("b", "ab"));
}

#[test]
fn text_maps_hold_the_last_value_of_each_key() {
    let mut map: TextMap<String> = TextMap::new();
    assert_eq!(map.len(), 0);
    map.insert("a".to_string(), "1".to_string());
    map.insert("b".to_string(), "2".to_string());
    map.insert("a".to_string(), "3".to_string());
    assert_eq!(map.len(), 2);
    assert_eq!(map.get("a"), Some(&"3".to_string()));
    assert_eq!(map.get("b"), Some(&"2".to_string()));
    assert!(map.contains_key("b"));
    assert_eq!(map.remove("a"), Some("3".to_string()));
    assert_eq!(map.remove("a"), None);
    assert_eq!(map.keys(), vec!["b".to_string()]);
}

#[test]
fn number_maps_walk_their_keys_in_order() {
    let mut map: NumberMap<String> = NumberMap::new();
    for n in [5, -3, 12, 0, 5] {
        map.insert(n, n.to_string());
    }
    assert_eq!(map.keys(), vec![-3, 0, 5, 12]);
    assert_eq!(map.get(12), Some(&"12".to_string()));
    assert_eq!(map.get(1), None);
}
