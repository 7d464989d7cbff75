use logged_kv::text::{contains, first_named, letters, stands_at, strip_slashes, url_names, wrap};

fn chars(s: &str) -> Vec<char> {
    s.chars().collect()
}

#[test]
fn letters_are_the_chars_of_a_string() {
    assert_eq!(letters("a/b"), vec!['a', '/', 'b']);
    assert_eq!(letters(""), Vec::<char>::new());
    assert_eq!(letters("\u{e9}\u{1F600}"), vec!['\u{e9}', '\u{1F600}']);
}

#[test]
fn strip_slashes_leaves_the_rest_in_order() {
    assert_eq!(strip_slashes(&chars("/a//b/c/")), chars("abc"));
    assert_eq!(strip_slashes(&chars("deploy")), chars("deploy"));
    assert_eq!(strip_slashes(&chars("///")), chars(""));
    assert_eq!(strip_slashes(&chars("")), chars(""));
    assert_eq!(strip_slashes(&chars("a\\b")), chars("a\\b"));
}

#[test]
fn wrap_puts_the_key_between_slashes() {
    assert_eq!(wrap(&chars("deploy")), chars("/deploy/"));
    assert_eq!(wrap(&chars("de/ploy")), chars("/deploy/"));
    assert_eq!(wrap(&chars("")), chars("//"));
    assert_eq!(wrap(&chars("/")), chars("//"));
}

#[test]
fn stands_at_compares_letter_by_letter() {
    let text = chars("abcabd");
    assert!(stands_at(&text, &chars("abc"), 0));
    assert!(!stands_at(&text, &chars("abc"), 3));
    assert!(stands_at(&text, &chars("abd"), 3));
    assert!(stands_at(&text, &chars(""), 6));
    assert!(stands_at(&text, &chars("d"), 5));
}

#[test]
fn contains_finds_a_part_anywhere() {
    let text = chars("http://host/deploy/path");
    assert!(contains(&text, &chars("/deploy/")));
    assert!(contains(&text, &chars("http")));
    assert!(contains(&text, &chars("path")));
    assert!(contains(&text, &chars("")));
    assert!(contains(&text, &text));
    assert!(!contains(&text, &chars("/deploy/x")));
    assert!(!contains(&text, &chars("paths")));
    assert!(!contains(&chars(""), &chars("a")));
    assert!(contains(&chars(""), &chars("")));
    assert!(contains(&chars("aab"), &chars("ab")));
}

#[test]
fn url_names_a_key_by_its_wrapped_form() {
    let url = chars("http://host/deploy/path");
    assert!(url_names(&url, "deploy"));
    assert!(url_names(&url, "/deploy/"));
    assert!(url_names(&url, "dep/loy"));
    assert!(url_names(&url, "host"));
    assert!(url_names(&url, ""));
    assert!(!url_names(&url, "path"));
    assert!(!url_names(&url, "http:"));
    assert!(!url_names(&url, "nomatch"));
    assert!(!url_names(&chars("/deploy/asd"), ""));
}

#[test]
fn first_named_is_the_first_by_position() {
    let keys: Vec<String> = vec!["deploy".to_string(), "rc".to_string()];
    assert_eq!(first_named(&keys, "http://host/deploy/path"), Some(0));
    assert_eq!(first_named(&keys, "http://host/rc/path"), Some(1));
    assert_eq!(first_named(&keys, "http://host/rc/deploy/"), Some(0));
    assert_eq!(first_named(&keys, "http://host/nomatch/path"), None);
    assert_eq!(first_named(&Vec::new(), "http://host/deploy/path"), None);
    assert_eq!(first_named(&keys, ""), None);
}
