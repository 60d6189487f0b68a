use rustplan::text::{
    decimal_string, has_char, join_path, join_strings, less_text, parse_u32, replace_all_char,
    seconds_string, sort_texts, trim_text,
};

fn strings(items: &[&str]) -> Vec<String> {
    items.iter().map(|s| s.to_string()).collect()
}

#[test]
fn decimal_numbers() {
    assert_eq!(decimal_string(0), "0");
    assert_eq!(decimal_string(1500), "1500");
    assert_eq!(decimal_string(u64::MAX), u64::MAX.to_string());
}

#[test]
fn seconds_match_float_display() {
    for ms in [0u32, 1, 10, 100, 999, 1000, 1001, 1500, 2000, 2250, 30000, 123456, u32::MAX] {
        assert_eq!(seconds_string(ms), format!("{}", ms as f64 / 1000.0), "ms = {ms}");
    }
}

#[test]
fn parse_u32_like_std() {
    for text in ["0", "42", "+7", "4294967295", "4294967296", "", "+", "-1", "1a", " 1", "007"] {
        assert_eq!(parse_u32(text), text.parse::<u32>().ok(), "text = {text:?}");
    }
}

#[test]
fn trim_like_std() {
    for text in ["  a b \n", "\t\u{3000}x\u{2009}", "", "   ", "x"] {
        assert_eq!(trim_text(text), text.trim(), "text = {text:?}");
    }
}

#[test]
fn joining_paths() {
    assert_eq!(join_path("/", "etc/netplan"), "/etc/netplan");
    assert_eq!(join_path("/srv", "etc/netplan"), "/srv/etc/netplan");
    assert_eq!(join_path("/srv/", "etc"), "/srv/etc");
    assert_eq!(join_path("/srv", "/abs"), "/abs");
    assert_eq!(join_path("", "rel"), "rel");
    assert_eq!(join_path("/srv", ""), "/srv/");
}

#[test]
fn joining_and_replacing_text() {
    assert_eq!(join_strings(&strings(&["a", "b", "c"]), ", "), "a, b, c");
    assert_eq!(join_strings(&strings(&[]), ", "), "");
    assert_eq!(replace_all_char("my home net", ' ', "_"), "my_home_net");
    assert!(has_char("fe80::1", ':'));
    assert!(!has_char("10.0.0.1", ':'));
}

#[test]
fn texts_sort_like_strings() {
    let names = strings(&["b", "a", "ab", "", "B", "é", "a"]);
    let mut expected = names.clone();
    expected.sort();
    assert_eq!(sort_texts(names), expected);
    assert!(less_text("a", "ab"));
    assert!(!less_text("ab", "a"));
    assert!(!less_text("a", "a"));
    assert!(less_text("Z", "a"));
}
