use rust_telemetry::metadata::{
    headers_fit, headers_to_metadata, list_fits, list_headers, list_to_metadata, MAX_HEADERS,
};
use std::collections::HashMap;

fn list(headers: &[(&str, &str)]) -> Vec<(String, String)> {
    headers
        .iter()
        .map(|h| (h.0.to_string(), h.1.to_string()))
        .collect()
}

fn map(headers: &[(&str, &str)]) -> HashMap<String, String> {
    list(headers).into_iter().collect()
}

#[test]
fn headers_become_metadata_under_lower_case_names() {
    let metadata = headers_to_metadata(&map(&[
        ("Authorization", "Bearer test-token"),
        ("x-api-key", "k"),
    ]));
    assert_eq!(metadata.len(), 2);
    assert_eq!(metadata.get("authorization").unwrap(), "Bearer test-token");
    assert_eq!(metadata.get("x-api-key").unwrap(), "k");
}

#[test]
fn no_headers_give_no_metadata() {
    assert!(headers_to_metadata(&HashMap::new()).is_empty());
}

#[test]
fn invalid_names_are_skipped() {
    let metadata = headers_to_metadata(&map(&[
        ("", "empty"),
        ("with space", "v"),
        ("with\"quote", "v"),
        ("colon:", "v"),
        ("na\u{ef}ve", "v"),
        ("line\nbreak", "v"),
        ("trace-bin", "v"),
        ("TRACE-BIN", "v"),
        ("ok", "v"),
    ]));
    assert_eq!(metadata.len(), 1);
    assert_eq!(metadata.get("ok").unwrap(), "v");
}

#[test]
fn every_token_character_is_taken() {
    let name = "!#$%&'*+-.^_`|~0123456789abcdefghijklmnopqrstuvwxyzABCDEFGHIJKLMNOPQRSTUVWXYZ";
    let metadata = list_to_metadata(&list(&[(name, "v")]));
    assert_eq!(metadata.len(), 1);
    assert_eq!(metadata.get(name.to_ascii_lowercase()).unwrap(), "v");
}

#[test]
fn every_other_ascii_character_is_refused_in_a_name() {
    for byte in 0u8..128 {
        let c = byte as char;
        let token = c.is_ascii_alphanumeric() || "!#$%&'*+-.^_`|~".contains(c);
        let metadata = list_to_metadata(&[(format!("x{c}y"), "v".to_string())].to_vec());
        assert_eq!(metadata.len(), if token { 1 } else { 0 }, "{byte}");
    }
}

#[test]
fn names_have_a_longest_length() {
    let longest = "a".repeat(65535);
    let too_long = "a".repeat(65536);
    assert_eq!(list_to_metadata(&list(&[(&longest, "v")])).len(), 1);
    assert_eq!(list_to_metadata(&list(&[(&too_long, "v")])).len(), 0);
}

#[test]
fn invalid_values_are_skipped() {
    let metadata = headers_to_metadata(&map(&[
        ("line-break", "a\nb"),
        ("nul", "\0"),
        ("tab", "a\tb"),
        ("del", "a\x7f"),
        ("latin", "caf\u{e9}"),
        ("wide", "\u{65e5}\u{672c}"),
        ("empty", ""),
        ("printable", " !~"),
    ]));
    assert_eq!(metadata.len(), 2);
    assert_eq!(metadata.get("empty").unwrap(), "");
    assert_eq!(metadata.get("printable").unwrap(), " !~");
}

#[test]
fn the_last_of_two_names_that_differ_in_case_wins() {
    let metadata = list_to_metadata(&list(&[("Key", "first"), ("kEY", "second")]));
    assert_eq!(metadata.len(), 1);
    assert_eq!(metadata.get("key").unwrap(), "second");
    let metadata = list_to_metadata(&list(&[("Key", "first"), ("kEY", "not\nsent")]));
    assert_eq!(metadata.get("key").unwrap(), "first");
}

#[test]
fn one_of_two_names_that_differ_in_case_is_sent() {
    let metadata = headers_to_metadata(&map(&[("Key", "a"), ("key", "b")]));
    assert_eq!(metadata.len(), 1);
    let value = metadata.get("key").unwrap().to_str().unwrap().to_string();
    assert!(value == "a" || value == "b");
}

#[test]
fn the_order_of_distinct_names_does_not_matter() {
    let forth = list_to_metadata(&list(&[("a", "1"), ("b", "2"), ("c", "3")]));
    let back = list_to_metadata(&list(&[("c", "3"), ("b", "2"), ("a", "1")]));
    for name in ["a", "b", "c"] {
        assert_eq!(forth.get(name), back.get(name));
    }
    assert_eq!(forth.len(), 3);
    assert_eq!(back.len(), 3);
}

#[test]
fn headers_are_listed_once_each() {
    let mut listed = list_headers(&map(&[("b", "2"), ("a", "1"), ("c", "3")]));
    listed.sort();
    assert_eq!(listed, list(&[("a", "1"), ("b", "2"), ("c", "3")]));
}

#[test]
fn as_many_headers_as_are_certain_to_fit_do_fit() {
    let headers: HashMap<String, String> =
        (0..MAX_HEADERS).map(|i| (format!("header-{i}"), i.to_string())).collect();
    assert!(headers_fit(&headers));
    let metadata = headers_to_metadata(&headers);
    assert_eq!(metadata.len(), MAX_HEADERS);
    assert_eq!(metadata.get("header-6552").unwrap(), "6552");
}

#[test]
fn one_name_too_many_does_not_fit() {
    let mut headers: HashMap<String, String> =
        (0..MAX_HEADERS).map(|i| (format!("header-{i}"), i.to_string())).collect();
    headers.insert("Header-0".to_string(), "same name".to_string());
    assert!(headers_fit(&headers));
    assert_eq!(headers_to_metadata(&headers).len(), MAX_HEADERS);
    headers.insert("one-more".to_string(), "v".to_string());
    assert!(!headers_fit(&headers));
    for i in 0..MAX_HEADERS {
        headers.insert(format!("many-more-{i}"), "v".to_string());
    }
    assert!(!headers_fit(&headers));
}

#[test]
fn headers_that_are_skipped_do_not_count() {
    let good = map(&[("a", "1"), ("B", "2"), ("c-c", "")]);
    let mut headers = good.clone();
    for i in 0..40000 {
        headers.insert(format!("not a name {i}"), "v".to_string());
        headers.insert(format!("name-{i}"), "not\na value".to_string());
        headers.insert(format!("name-{i}-bin"), "v".to_string());
    }
    assert!(headers_fit(&headers));
    let metadata = headers_to_metadata(&headers);
    let expected = headers_to_metadata(&good);
    assert_eq!(metadata.len(), 3);
    for name in ["a", "b", "c-c"] {
        assert_eq!(metadata.get(name).unwrap(), expected.get(name).unwrap());
    }
}

#[test]
fn skipped_headers_may_fall_anywhere() {
    let expected = list_to_metadata(&list(&[("a", "1"), ("b", "2")]));
    for headers in [
        list(&[("no name", "v"), ("a", "1"), ("b", "2")]),
        list(&[("a", "1"), ("a", "\n"), ("b", "2")]),
        list(&[("a", "1"), ("b", "2"), ("b-bin", "3")]),
    ] {
        let metadata = list_to_metadata(&headers);
        assert_eq!(metadata.len(), 2);
        assert_eq!(metadata.get("a"), expected.get("a"));
        assert_eq!(metadata.get("b"), expected.get("b"));
    }
}

#[test]
fn a_repeated_name_counts_once() {
    let mut headers: Vec<(String, String)> =
        (0..40000).map(|i| ("again".to_string(), i.to_string())).collect();
    assert!(list_fits(&headers));
    let metadata = list_to_metadata(&headers);
    assert_eq!(metadata.len(), 1);
    assert_eq!(metadata.get("again").unwrap(), "39999");
    headers.extend((0..MAX_HEADERS).map(|i| (format!("header-{i}"), i.to_string())));
    assert!(!list_fits(&headers));
}

#[test]
fn no_name_has_two_values() {
    let metadata = list_to_metadata(&list(&[("Key", "1"), ("key", "2"), ("KEY", "3"), ("a", "4")]));
    assert_eq!(metadata.keys_len(), 2);
    assert_eq!(metadata.len(), 2);
    let values: Vec<_> = metadata.get_all("key").iter().collect();
    assert_eq!(values, vec!["3"]);
    let values: Vec<_> = metadata.get_all("a").iter().collect();
    assert_eq!(values, vec!["4"]);
}

#[test]
fn skipped_headers_leave_the_outcomes_that_are_possible() {
    for _ in 0..20 {
        let mut headers = map(&[("Key", "a"), ("key", "b")]);
        headers.insert("KEY".to_string(), "not\nsent".to_string());
        headers.insert("no name".to_string(), "c".to_string());
        let metadata = headers_to_metadata(&headers);
        assert_eq!(metadata.len(), 1);
        let value = metadata.get("key").unwrap().to_str().unwrap().to_string();
        assert!(value == "a" || value == "b");
    }
}
