use grm::path::{components_of, join, starts_at_root, strip_root, SEPARATOR};
use grm::text::{
    append_chars, chars_of, contains_text, count_char, has_char, replace_char, same_chars,
    string_of, trim_leading,
};

fn parts(path: &str) -> Vec<String> {
    components_of(path).iter().map(|part| part.iter().collect()).collect()
}

#[test]
fn join_puts_one_separator_between() {
    assert_eq!(SEPARATOR, '/');
    assert_eq!(join("/a", "b"), "/a/b");
    assert_eq!(join("/a/", "b"), "/a/b");
    assert_eq!(join("", "b"), "b");
    assert_eq!(join("/a", ""), "/a/");
    assert_eq!(join("a", "b/c"), "a/b/c");
    assert_eq!(join("/", "b"), "/b");
}

#[test]
fn join_with_absolute_path_replaces_the_base() {
    assert_eq!(join("/a", "/b"), "/b");
    assert_eq!(join("", "/"), "/");
}

#[test]
fn join_agrees_with_the_standard_library() {
    for (base, rel) in [("/a", "b"), ("/a/", "b"), ("", "b"), ("/a", ""), ("/a", "/b"), ("a", "b/c"), ("", "")] {
        let std_joined = std::path::Path::new(base).join(rel);
        assert_eq!(join(base, rel), std_joined.to_str().unwrap());
    }
}

#[test]
fn starts_at_root_looks_at_the_first_character() {
    assert!(starts_at_root("/"));
    assert!(starts_at_root("/a"));
    assert!(!starts_at_root(""));
    assert!(!starts_at_root("a/"));
}

#[test]
fn components_are_the_runs_between_separators() {
    assert_eq!(parts("/a/b/c"), ["a", "b", "c"]);
    assert_eq!(parts("a//b///c/"), ["a", "b", "c"]);
    assert_eq!(parts("abc"), ["abc"]);
    assert_eq!(parts(""), Vec::<String>::new());
    assert_eq!(parts("///"), Vec::<String>::new());
    assert_eq!(parts("/ä/ö"), ["ä", "ö"]);
}

#[test]
fn strip_root_gives_the_way_from_the_root() {
    assert_eq!(strip_root("/r/a/b", "/r"), Some("a/b".to_string()));
    assert_eq!(strip_root("/r//a/b/", "/r/"), Some("a/b".to_string()));
    assert_eq!(strip_root("/r", "/r"), Some("".to_string()));
    assert_eq!(strip_root("a/b", ""), Some("a/b".to_string()));
    assert_eq!(strip_root("/a/b", "/"), Some("a/b".to_string()));
}

#[test]
fn strip_root_fails_outside_the_root() {
    assert_eq!(strip_root("/rx/a", "/r"), None);
    assert_eq!(strip_root("/r", "/r/a"), None);
    assert_eq!(strip_root("r/a", "/r"), None);
    assert_eq!(strip_root("/r/a", "r"), None);
    assert_eq!(strip_root("/a/r/b", "/r"), None);
}

#[test]
fn strip_root_agrees_with_the_standard_library() {
    for (path, root) in [("/r/a/b", "/r"), ("/r", "/r"), ("/rx/a", "/r"), ("r/a", "/r"), ("/r/a", "/r/")] {
        let std_stripped = std::path::Path::new(path).strip_prefix(root).ok();
        assert_eq!(strip_root(path, root), std_stripped.map(|rest| rest.to_str().unwrap().to_string()));
    }
}

#[test]
fn chars_and_strings_convert_both_ways() {
    assert_eq!(chars_of("a/ü"), vec!['a', '/', 'ü']);
    assert_eq!(string_of(&vec!['a', '/', 'ü']), "a/ü");
    assert_eq!(string_of(&Vec::new()), "");
    assert_eq!(string_of(&chars_of("round trip")), "round trip");
}

#[test]
fn count_char_counts_every_occurrence() {
    assert_eq!(count_char("", '/'), 0);
    assert_eq!(count_char("bar", '/'), 0);
    assert_eq!(count_char("https://github.com/foo/bar", '/'), 4);
    assert_eq!(count_char("////", '/'), 4);
}

#[test]
fn has_char_finds_a_character() {
    assert!(has_char("git@host", '@'));
    assert!(!has_char("host", '@'));
    assert!(!has_char("", '@'));
}

#[test]
fn trim_leading_drops_the_whole_run() {
    assert_eq!(trim_leading("/foo/bar", '/'), "foo/bar");
    assert_eq!(trim_leading("///foo//bar/", '/'), "foo//bar/");
    assert_eq!(trim_leading("foo", '/'), "foo");
    assert_eq!(trim_leading("//", '/'), "");
    assert_eq!(trim_leading("", '/'), "");
}

#[test]
fn replace_char_replaces_each_occurrence() {
    assert_eq!(replace_char("a/b/c", '/', "__"), "a__b__c");
    assert_eq!(replace_char("a\\b", '\\', "/"), "a/b");
    assert_eq!(replace_char("//", '/', ""), "");
    assert_eq!(replace_char("abc", '/', "__"), "abc");
    assert_eq!(replace_char("", '/', "__"), "");
}

#[test]
fn contains_text_finds_a_run() {
    assert!(contains_text("refs/heads/feature/login", "feature"));
    assert!(contains_text("abc", ""));
    assert!(contains_text("", ""));
    assert!(contains_text("abc", "abc"));
    assert!(contains_text("aab", "ab"));
    assert!(!contains_text("abc", "abcd"));
    assert!(!contains_text("abc", "ac"));
    assert!(!contains_text("", "a"));
}

#[test]
fn same_chars_and_append_chars() {
    assert!(same_chars(&chars_of("abc"), &chars_of("abc")));
    assert!(!same_chars(&chars_of("abc"), &chars_of("abd")));
    assert!(!same_chars(&chars_of("abc"), &chars_of("ab")));
    let mut out = chars_of("ab");
    append_chars(&mut out, &chars_of("cd"));
    assert_eq!(out, chars_of("abcd"));
}
