use ss_proxy::text::{
    chars_of, decimal_string, equals_in_lower_case, find_char, has_prefix, percent_decode,
    str_equal, to_lower_case,
};

#[test]
fn equal_strings() {
    assert!(str_equal("", ""));
    assert!(str_equal("abc", "abc"));
    assert!(str_equal("héllo", "héllo"));
    assert!(!str_equal("abc", "abd"));
    assert!(!str_equal("abc", "ab"));
    assert!(!str_equal("", "a"));
    assert!(!str_equal("é", "e"));
}

#[test]
fn characters_of_a_string() {
    assert_eq!(chars_of(""), Vec::<char>::new());
    assert_eq!(chars_of("a/b"), vec!['a', '/', 'b']);
    assert_eq!(chars_of("日本"), vec!['日', '本']);
}

#[test]
fn prefixes() {
    let text = chars_of("http://x");
    assert!(has_prefix(&text, &chars_of("")));
    assert!(has_prefix(&text, &chars_of("http://")));
    assert!(has_prefix(&text, &chars_of("http://x")));
    assert!(!has_prefix(&text, &chars_of("https://")));
    assert!(!has_prefix(&text, &chars_of("http://xy")));
}

#[test]
fn finding_a_character() {
    let text = chars_of("/ab/c");
    assert_eq!(find_char(&text, 0, '/'), 0);
    assert_eq!(find_char(&text, 1, '/'), 3);
    assert_eq!(find_char(&text, 4, '/'), 5);
    assert_eq!(find_char(&text, 5, '/'), 5);
    assert_eq!(find_char(&text, 0, 'z'), 5);
}

#[test]
fn decimal_numerals() {
    assert_eq!(decimal_string(0), "0");
    assert_eq!(decimal_string(7), "7");
    assert_eq!(decimal_string(10), "10");
    assert_eq!(decimal_string(8080), "8080");
    assert_eq!(decimal_string(1234567890), "1234567890");
    assert_eq!(decimal_string(u64::MAX), "18446744073709551615");
}

#[test]
fn percent_escapes() {
    assert_eq!(percent_decode(""), Some(String::new()));
    assert_eq!(percent_decode("plain"), Some("plain".to_string()));
    assert_eq!(percent_decode("a%20b"), Some("a b".to_string()));
    assert_eq!(percent_decode("%41%42%43"), Some("ABC".to_string()));
    assert_eq!(percent_decode("%e2%82%ac"), Some("€".to_string()));
    assert_eq!(percent_decode("%E2%82%AC"), Some("€".to_string()));
    assert_eq!(percent_decode("%"), Some("%".to_string()));
    assert_eq!(percent_decode("%4"), Some("%4".to_string()));
    assert_eq!(percent_decode("%4g"), Some("%4g".to_string()));
    assert_eq!(percent_decode("%%41"), Some("%A".to_string()));
    assert_eq!(percent_decode("%2541"), Some("%41".to_string()));
    assert_eq!(percent_decode("a+b"), Some("a+b".to_string()));
    assert_eq!(percent_decode("%00"), Some("\0".to_string()));
    assert_eq!(percent_decode("%ff"), None);
    assert_eq!(percent_decode("%e2%82"), None);
    assert_eq!(percent_decode("é%e2"), None);
}

#[test]
fn lower_case() {
    assert_eq!(to_lower_case('A'), 'a');
    assert_eq!(to_lower_case('Z'), 'z');
    assert_eq!(to_lower_case('m'), 'm');
    assert_eq!(to_lower_case('@'), '@');
    assert_eq!(to_lower_case('['), '[');
    assert_eq!(to_lower_case('É'), 'É');
    assert!(equals_in_lower_case(&chars_of("Content-Length"), "content-length"));
    assert!(equals_in_lower_case(&chars_of(""), ""));
    assert!(!equals_in_lower_case(&chars_of("Content-Length"), "Content-Length"));
    assert!(!equals_in_lower_case(&chars_of("content-lengt"), "content-length"));
}
