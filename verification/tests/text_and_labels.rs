use clash_tui::api::{
    bearer_value, delay_base_url, delay_test_query, delay_test_segments, delay_test_url,
    encode_url, proxies_url, rules_url, select_proxy_url,
};
use clash_tui::labels::{delay_grade, delay_label, DelayGrade};
use clash_tui::text::{chars_of, contains_chars, str_lt, string_from_chars};

#[test]
fn chars_round_trip() {
    let v = chars_of("héllo ✓");
    assert_eq!(v, vec!['h', 'é', 'l', 'l', 'o', ' ', '✓']);
    assert_eq!(string_from_chars(&v), "héllo ✓");
    assert_eq!(chars_of(""), Vec::<char>::new());
}

#[test]
fn substring_search() {
    let hay = chars_of("domain-suffix apple.com");
    assert!(contains_chars(&hay, &chars_of("apple")));
    assert!(contains_chars(&hay, &chars_of("domain")));
    assert!(contains_chars(&hay, &chars_of(".com")));
    assert!(contains_chars(&hay, &chars_of("")));
    assert!(!contains_chars(&hay, &chars_of("google")));
    assert!(!contains_chars(&chars_of("ab"), &chars_of("abc")));
}

#[test]
fn string_order() {
    assert!(str_lt("a", "b"));
    assert!(!str_lt("b", "a"));
    assert!(str_lt("a", "ab"));
    assert!(!str_lt("ab", "a"));
    assert!(!str_lt("", ""));
    assert!(str_lt("", "a"));
    assert!(str_lt("B", "a"));
    assert!(str_lt("GLOBAL", "Proxy"));
    assert_eq!(str_lt("香港", "日本"), "香港" < "日本");
}

#[test]
fn delay_labels() {
    assert_eq!(delay_label(Some(5)), "   5 ms");
    assert_eq!(delay_label(Some(0)), "   0 ms");
    assert_eq!(delay_label(Some(42)), "  42 ms");
    assert_eq!(delay_label(Some(1234)), "1234 ms");
    assert_eq!(delay_label(Some(12345)), "12345 ms");
    assert_eq!(delay_label(Some(u32::MAX)), "4294967295 ms");
    assert_eq!(delay_label(None), "   - ms");
    assert_eq!(delay_label(Some(777)), format!("{:>4} ms", 777));
}

#[test]
fn delay_grades() {
    assert_eq!(delay_grade(Some(0)), DelayGrade::Fast);
    assert_eq!(delay_grade(Some(120)), DelayGrade::Fast);
    assert_eq!(delay_grade(Some(121)), DelayGrade::Medium);
    assert_eq!(delay_grade(Some(350)), DelayGrade::Medium);
    assert_eq!(delay_grade(Some(351)), DelayGrade::Slow);
    assert_eq!(delay_grade(None), DelayGrade::Unknown);
}

#[test]
fn api_addresses() {
    assert_eq!(proxies_url("http://127.0.0.1:9091"), "http://127.0.0.1:9091/proxies");
    assert_eq!(rules_url("http://127.0.0.1:9091"), "http://127.0.0.1:9091/rules");
    assert_eq!(
        select_proxy_url("http://127.0.0.1:9091", "GLOBAL"),
        "http://127.0.0.1:9091/proxies/GLOBAL"
    );
    assert_eq!(bearer_value("s3cret"), "Bearer s3cret");
    assert_eq!(delay_base_url("http://127.0.0.1:9091"), "http://127.0.0.1:9091/");
    assert_eq!(delay_base_url("http://127.0.0.1:9091///"), "http://127.0.0.1:9091/");
    assert_eq!(delay_base_url(""), "/");
}

#[test]
fn delay_test_address_parts() {
    assert_eq!(
        delay_test_segments("香港 01"),
        vec!["proxies".to_string(), "香港 01".to_string(), "delay".to_string()]
    );
    assert_eq!(
        delay_test_query(),
        vec![
            ("timeout".to_string(), "5000".to_string()),
            ("url".to_string(), "https://www.gstatic.com/generate_204".to_string()),
        ]
    );
}

#[test]
fn delay_test_addresses() {
    assert_eq!(
        delay_test_url("http://127.0.0.1:9091//", "HK").as_deref(),
        Some("http://127.0.0.1:9091/proxies/HK/delay?timeout=5000&url=https%3A%2F%2Fwww.gstatic.com%2Fgenerate_204")
    );
    let encoded = delay_test_url("http://127.0.0.1:9091", "香港 01").unwrap();
    assert!(encoded.starts_with("http://127.0.0.1:9091/proxies/%E9%A6%99%E6%B8%AF%2001/delay?"));
    assert_eq!(delay_test_url("not an address", "HK"), None);
    assert_eq!(delay_test_url("mailto:me@example.com", "HK"), None);
}

#[test]
fn encoding_addresses() {
    let segments = vec!["a b".to_string(), "c".to_string()];
    let query = vec![("k".to_string(), "v w".to_string())];
    assert_eq!(
        encode_url("http://h/", &segments, &query).as_deref(),
        Some("http://h/a%20b/c?k=v+w")
    );
}
