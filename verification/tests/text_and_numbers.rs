use projektil_control::json;
use projektil_control::json::Json;
use projektil_control::numerals;
use projektil_control::strmap::StrMap;
use projektil_control::text;

fn strings(list: &[&str]) -> Vec<String> {
    list.iter().map(|s| s.to_string()).collect()
}

#[test]
fn trimming_takes_all_white_space() {
    assert_eq!(text::trim("\u{a0}\t a b \r\n"), "a b");
    assert_eq!(text::trim_start("  x "), "x ");
    assert_eq!(text::trim(" \u{3000} "), "");
    assert!(text::blank(" \n"));
    assert!(!text::blank(" . "));
    assert_eq!(text::trim_trailing("a--", '-'), "a");
    assert_eq!(text::trim_leading("\0\0a\0", '\0'), "a\0");
}

#[test]
fn trimmed_texts_have_no_edges() {
    for s in ["  ab ", "\tx", "y\n", "z"] {
        let t = text::trim(s);
        assert!(!t.starts_with(char::is_whitespace) && !t.ends_with(char::is_whitespace));
    }
}

#[test]
fn search_finds_the_first_occurrence() {
    assert_eq!(text::find("abcabc", "ca"), Some(2));
    assert_eq!(text::find("äbä", "ä"), Some(0));
    assert_eq!(text::find("abc", "x"), None);
    assert_eq!(text::find("abc", ""), Some(0));
    assert!(text::contains("verbindung", "bind"));
    assert_eq!(text::find_chars(&vec!['a', 'b'], &vec!['b']), Some(1));
}

#[test]
fn prefixes_and_suffixes() {
    assert!(text::starts_with("PJLINK 1", "PJLINK"));
    assert!(!text::starts_with("PJ", "PJLINK"));
    assert!(text::ends_with("ups_offline", "_offline"));
    assert_eq!(text::strip_prefix("Digest x", "Digest "), Some("x".to_string()));
    assert_eq!(text::strip_prefix("Basic x", "Digest "), None);
    assert_eq!(text::strip_prefixes("ababc", "ab"), "c");
    assert_eq!(text::head_before("/a?b?c", "?"), "/a");
    assert_eq!(text::tail_after("a=b=c", "="), Some("b=c".to_string()));
    assert_eq!(text::tail_after("abc", "="), None);
    assert_eq!(text::first_line("one\r\ntwo"), "one");
}

#[test]
fn letters_change_case() {
    assert_eq!(text::to_ascii_lowercase("ÄBC1"), "Äbc1");
    assert_eq!(text::to_ascii_uppercase("äbc1"), "äBC1");
    assert!(text::eq_ignore_ascii_case("EPSON", "epson"));
    assert!(!text::eq_ignore_ascii_case("Ä", "ä"));
}

#[test]
fn texts_are_cut_and_joined() {
    assert_eq!(text::split("a,,b", ','), strings(&["a", "", "b"]));
    assert_eq!(text::split("", ','), strings(&[""]));
    assert_eq!(text::split_whitespace("  a \t b "), strings(&["a", "b"]));
    assert_eq!(text::replace("a.b.c", '.', "_"), "a_b_c");
    assert_eq!(text::join(&strings(&["a", "b", "c"]), "/"), "a/b/c");
    assert_eq!(text::join(&Vec::new(), "/"), "");
    assert_eq!(text::glue3("a", "b", "c"), "abc");
    assert_eq!(text::text_between(&text::chars_of("abcd"), 1, 3), "bc");
    assert!(text::same("ab", "ab") && !text::same("ab", "a"));
}

#[test]
fn numbers_are_written() {
    assert_eq!(numerals::dec_u64(0), "0");
    assert_eq!(numerals::dec_u64(u64::MAX), "18446744073709551615");
    assert_eq!(numerals::dec_i64(i64::MIN), "-9223372036854775808");
    assert_eq!(numerals::dec_signed_i32(7), "+7");
    assert_eq!(numerals::dec_signed_i32(-7), "-7");
    assert_eq!(numerals::dec_signed_i32(0), "+0");
    assert_eq!(numerals::hex_u64(0), "0");
    assert_eq!(numerals::hex_u64(0xdead_beef), "deadbeef");
    let mut s = String::new();
    numerals::push_hex_pair(&mut s, 0x0f);
    numerals::push_hex_pair(&mut s, 0xa0);
    assert_eq!(s, "0FA0");
}

#[test]
fn numbers_are_read() {
    assert_eq!(numerals::parse_unsigned("+255", 255), Some(255));
    assert_eq!(numerals::parse_unsigned("256", 255), None);
    assert_eq!(numerals::parse_unsigned("007", 255), Some(7));
    assert_eq!(numerals::parse_unsigned("", 255), None);
    assert_eq!(numerals::parse_unsigned("+", 255), None);
    assert_eq!(numerals::parse_unsigned("-1", 255), None);
    assert_eq!(numerals::parse_unsigned("1 ", 255), None);
    assert_eq!(numerals::parse_unsigned("18446744073709551616", u64::MAX), None);
    assert_eq!(numerals::parse_unsigned("18446744073709551615", u64::MAX), Some(u64::MAX));
}

#[test]
fn bytes_of_texts() {
    assert_eq!(numerals::bytes_of("aä"), vec![0x61, 0xc3, 0xa4]);
    assert_eq!(numerals::byte_len("aä€"), 6);
    assert_eq!(numerals::bytes_between(&vec![1, 2, 3, 4], 1, 3), vec![2, 3]);
    let mut out = vec![1];
    numerals::extend_bytes(&mut out, &vec![2, 3]);
    assert_eq!(out, vec![1, 2, 3]);
}

#[test]
fn maps_keep_the_last_value() {
    let mut m: StrMap<u64> = StrMap::new();
    assert_eq!(m.get("a"), None);
    m.insert("a".to_string(), 1);
    m.insert("b".to_string(), 2);
    m.insert("a".to_string(), 3);
    assert_eq!(m.get("a"), Some(&3));
    assert_eq!(m.get("b"), Some(&2));
    assert!(m.contains_key("b") && !m.contains_key("c"));
    assert_eq!(m.position("c"), None);
}

#[test]
fn json_is_read() {
    let v = json::parse_json("{\"a\": [1, -2, 1.5, \"x\", true, null], \"b\": {\"c\": 7}}").unwrap();
    let list = v.get("a").unwrap().as_array().unwrap();
    assert_eq!(list[0], Json::Unsigned(1));
    assert_eq!(list[1], Json::Negative(-2));
    assert_eq!(list[2], Json::Real(1.5f64.to_bits()));
    assert_eq!(list[3], Json::Text("x".to_string()));
    assert_eq!(list[4].as_bool(), Some(true));
    assert!(list[5].is_null());
    assert_eq!(v.get2("b", "c").unwrap().as_i64(), Some(7));
    assert!(v.get2("b", "d").is_none());
    assert_eq!(list[1].as_u64(), None);
    assert_eq!(Json::Unsigned(u64::MAX).as_i64(), None);
    assert_eq!(v.duplicate(), v);
}

#[test]
fn json_errors_are_those_of_the_parser() {
    let e = json::parse_json("{").unwrap_err();
    assert_eq!(e, serde_json::from_str::<serde_json::Value>("{").unwrap_err().to_string());
}

#[test]
fn json_is_built() {
    let mut m = json::empty_object();
    assert!(json::no_fields(&m));
    json::put(&mut m, "n", json::number(-3));
    json::put(&mut m, "u", json::number_or_null(None));
    json::put(&mut m, "t", json::texts_to_json(&strings(&["a"])));
    json::put(&mut m, "f", json::bools_to_json(&vec![true, false]));
    assert!(json::has_field(&m, "n") && !json::has_field(&m, "x"));
    let v = Json::Object(m);
    assert!(v.is_object());
    assert_eq!(v.integer_field("n"), Some(-3));
    assert!(v.get("u").unwrap().is_null());
    assert_eq!(v.get("t"), Some(&Json::List(vec![json::text("a")])));
    assert_eq!(v.get("f"), Some(&Json::List(vec![Json::Bool(true), Json::Bool(false)])));
    assert_eq!(v.text_field("n"), None);
    assert_eq!(json::copy_list(&vec![json::text("a")]), vec![json::text("a")]);
}
