use wireguard_gui::text::{
    ends_with_conf, is_valid_name, sanitize_name, str_eq_chars, strip_conf_ext, trim_text,
    u64_to_dec, with_suffix,
};

#[test]
fn valid_name_accepts_alphanumeric() {
    assert!(is_valid_name("Office42"));
    assert!(is_valid_name("abc"));
}

#[test]
fn valid_name_rejects_punctuation_and_spaces() {
    assert!(!is_valid_name("my vpn"));
    assert!(!is_valid_name("a-b"));
    assert!(!is_valid_name("x!"));
}

#[test]
fn valid_name_empty_is_vacuously_valid() {
    assert!(is_valid_name(""));
}

#[test]
fn sanitize_strips_non_alphanumeric() {
    assert_eq!(sanitize_name("My VPN!!"), "MyVPN");
    assert_eq!(sanitize_name("a_b-c.d"), "abcd");
    assert_eq!(sanitize_name("!!!"), "");
}

#[test]
fn extension_recognized_only_at_end() {
    assert!(ends_with_conf("tunnel.conf"));
    assert!(!ends_with_conf("tunnel.con"));
    assert!(!ends_with_conf("conf"));
    assert!(!ends_with_conf("tunnel.conf.bak"));
}

#[test]
fn strip_extension_removes_every_occurrence() {
    assert_eq!(strip_conf_ext("tunnel.conf"), "tunnel");
    assert_eq!(strip_conf_ext("a.confb.conf"), "ab");
    assert_eq!(strip_conf_ext("plain"), "plain");
}

#[test]
fn trim_removes_leading_and_trailing_whitespace() {
    assert_eq!(trim_text("  hello \n"), "hello");
    assert_eq!(trim_text("hello"), "hello");
    assert_eq!(trim_text(" \t \n"), "");
    assert_eq!(trim_text("a b"), "a b");
}

#[test]
fn decimal_rendering() {
    assert_eq!(u64_to_dec(0), "0");
    assert_eq!(u64_to_dec(7), "7");
    assert_eq!(u64_to_dec(10), "10");
    assert_eq!(u64_to_dec(90210), "90210");
}

#[test]
fn suffix_candidates() {
    assert_eq!(with_suffix("MyVPN", 1), "MyVPN_1");
    assert_eq!(with_suffix("MyVPN", 12), "MyVPN_12");
}

#[test]
fn char_wise_equality() {
    assert!(str_eq_chars("abc", "abc"));
    assert!(!str_eq_chars("abc", "abd"));
    assert!(!str_eq_chars("abc", "ab"));
    assert!(str_eq_chars("", ""));
}

#[test]
fn origin_extracted_from_lookup_body() {
    let body = "HTTP/1.1 200 OK\r\n\r\n{\n  \"origin\": \"203.0.113.7\"\n}\n";
    assert_eq!(
        wireguard_gui::lookup::extract_origin(body).as_deref(),
        Some("203.0.113.7")
    );
}

#[test]
fn origin_absent_when_key_missing() {
    assert_eq!(wireguard_gui::lookup::extract_origin("{}"), None);
}

#[test]
fn origin_absent_when_value_unterminated() {
    assert_eq!(wireguard_gui::lookup::extract_origin("{\"origin\": \"1.2.3"), None);
}
