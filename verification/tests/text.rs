use wadup_core::text::{
    find_last, normalize_path, push_decimal, push_decimal_digits, split_path, str_contains,
    str_ends_with, str_equal, str_starts_with, trim_leading_slashes,
};

fn parts(path: &str) -> Vec<String> {
    split_path(path)
}

#[test]
fn paths_split_at_slashes() {
    assert_eq!(parts("/a/b/c"), vec!["a", "b", "c"]);
    assert_eq!(parts("a"), vec!["a"]);
    assert_eq!(parts("///a"), vec!["a"]);
    assert_eq!(parts("a//b"), vec!["a", "", "b"]);
    assert_eq!(parts("a/"), vec!["a", ""]);
    assert_eq!(parts("/é/ü"), vec!["é", "ü"]);
    assert!(parts("").is_empty());
    assert!(parts("/").is_empty());
    assert!(parts("////").is_empty());
}

#[test]
fn normalized_paths_start_with_one_slash() {
    assert_eq!(normalize_path("metadata/a.json"), "/metadata/a.json");
    assert_eq!(normalize_path("/metadata/a.json"), "/metadata/a.json");
    assert_eq!(normalize_path("///x//y"), "/x//y");
    assert_eq!(normalize_path(""), "/");
    assert_eq!(trim_leading_slashes("//a/b/"), "a/b/");
    assert_eq!(trim_leading_slashes("/"), "");
}

#[test]
fn string_tests() {
    assert!(str_starts_with("/metadata/x", "/metadata/"));
    assert!(!str_starts_with("/metadat", "/metadata/"));
    assert!(str_starts_with("abc", ""));
    assert!(str_ends_with("x.json", ".json"));
    assert!(!str_ends_with("json", ".json"));
    assert!(str_contains("out of fuel", "fuel"));
    assert!(!str_contains("out of fue", "fuel"));
    assert!(str_contains("anything", ""));
    assert!(str_equal("a", "a"));
    assert!(!str_equal("a", "A"));
    assert!(!str_equal("a", "ab"));
}

#[test]
fn decimal_numbers() {
    let mut out = String::from("n=");
    push_decimal_digits(&mut out, 0);
    out.push(',');
    push_decimal_digits(&mut out, 7);
    out.push(',');
    push_decimal_digits(&mut out, 1234567890);
    out.push(',');
    push_decimal_digits(&mut out, u64::MAX);
    assert_eq!(out, "n=0,7,1234567890,18446744073709551615");
    let mut signed = String::new();
    push_decimal(&mut signed, -42);
    signed.push(' ');
    push_decimal(&mut signed, i64::MIN);
    signed.push(' ');
    push_decimal(&mut signed, i64::MAX);
    signed.push(' ');
    push_decimal(&mut signed, 0);
    assert_eq!(signed, "-42 -9223372036854775808 9223372036854775807 0");
}

#[test]
fn last_occurrence_counts_characters() {
    assert_eq!(find_last("a/b/c", '/'), Some(3));
    assert_eq!(find_last("abc", '/'), None);
    assert_eq!(find_last("", '/'), None);
    assert_eq!(find_last("/", '/'), Some(0));
    assert_eq!(find_last("é/ü/x", '/'), Some(3));
}
