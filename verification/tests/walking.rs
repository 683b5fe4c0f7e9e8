use grm::walk::{list_managed, show, Entry, Visit, Walk, MIN_DEPTH};

fn entry(path: &str, depth: usize, is_repository: bool) -> Entry {
    Entry { path: path.to_string(), depth, is_repository }
}

#[test]
fn repository_is_listed_once_and_not_entered() {
    let entries = vec![
        entry("/root/a", 1, true),
        entry("/root/a/.git", 2, true),
        entry("/root/a/vendor", 2, false),
        entry("/root/a/vendor/nested", 3, true),
    ];
    assert_eq!(list_managed("/root", &entries, false), ["a"]);
    assert_eq!(list_managed("/root", &entries, true), ["/root/a"]);
}

#[test]
fn walk_goes_on_after_a_repository() {
    let entries = vec![
        entry("/root/github.com", 1, false),
        entry("/root/github.com/foo", 2, false),
        entry("/root/github.com/foo/bar", 3, true),
        entry("/root/github.com/foo/bar/.git", 4, true),
        entry("/root/github.com/foo/baz", 3, true),
        entry("/root/github.com/foo/notes.txt", 3, false),
        entry("/root/example.org", 1, false),
        entry("/root/example.org/x", 2, true),
        entry("/root/example.org/x/y", 3, true),
        entry("/root/top", 1, true),
    ];
    assert_eq!(
        list_managed("/root", &entries, false),
        ["github.com/foo/bar", "github.com/foo/baz", "example.org/x", "top"],
    );
}

#[test]
fn walk_of_nothing_lists_nothing() {
    assert_eq!(list_managed("/root", &Vec::new(), false), Vec::<String>::new());
    let entries = vec![entry("/root/a", 1, false), entry("/root/a/b", 2, false)];
    assert_eq!(list_managed("/root", &entries, true), Vec::<String>::new());
}

#[test]
fn sibling_at_the_same_depth_is_visited() {
    let entries = vec![entry("/r/a", 1, true), entry("/r/b", 1, true), entry("/r/b/c", 2, true)];
    assert_eq!(list_managed("/r", &entries, false), ["a", "b"]);
}

#[test]
fn walk_passes_what_is_no_repository() {
    let mut walk = Walk::new();
    assert_eq!(walk.visit("/root", "/root/a", 1, false, false), Visit::Pass);
    assert_eq!(walk.visit("/root", "/root/a/b", 2, false, true), Visit::Pass);
}

#[test]
fn walk_reports_a_repository_by_its_way_from_the_root() {
    let mut walk = Walk::new();
    assert_eq!(
        walk.visit("/root", "/root/github.com/foo/bar", 3, true, false),
        Visit::Report { shown: "github.com/foo/bar".to_string() },
    );
    let mut walk = Walk::new();
    assert_eq!(
        walk.visit("/root", "/root/github.com/foo/bar", 3, true, true),
        Visit::Report { shown: "/root/github.com/foo/bar".to_string() },
    );
}

#[test]
fn walk_passes_what_lies_below_a_repository() {
    let mut walk = Walk::new();
    assert_eq!(walk.visit("/r", "/r/a", 1, true, false), Visit::Report { shown: "a".to_string() });
    assert_eq!(walk.visit("/r", "/r/a/.git", 2, true, false), Visit::Pass);
    assert_eq!(walk.visit("/r", "/r/a/x", 2, false, false), Visit::Pass);
    assert_eq!(walk.visit("/r", "/r/a/x/y", 3, true, false), Visit::Pass);
    assert_eq!(walk.visit("/r", "/r/b", 1, true, false), Visit::Report { shown: "b".to_string() });
}

#[test]
fn walk_that_never_sees_below_a_repository() {
    // The walker leaves out what lies below a reported repository.
    let mut walk = Walk::new();
    assert_eq!(walk.visit("/r", "/r/h", 1, false, false), Visit::Pass);
    assert_eq!(walk.visit("/r", "/r/h/a", 2, true, false), Visit::Report { shown: "h/a".to_string() });
    assert_eq!(walk.visit("/r", "/r/h/b", 2, true, false), Visit::Report { shown: "h/b".to_string() });
    assert_eq!(walk.visit("/r", "/r/i", 1, false, false), Visit::Pass);
    assert_eq!(walk.visit("/r", "/r/i/c", 2, true, false), Visit::Report { shown: "i/c".to_string() });
}

#[test]
fn show_gives_a_path_outside_the_root_as_it_is() {
    assert_eq!(show("/root", "/other/a", false), "/other/a");
    assert_eq!(show("/root", "/root/a/b", false), "a/b");
    assert_eq!(show("/root", "/root/a/b", true), "/root/a/b");
}

#[test]
fn show_writes_backslashes_as_slashes() {
    assert_eq!(show("/root", "/root/a\\b", false), "a/b");
    assert_eq!(show("C:\\root", "C:\\root\\a", true), "C:/root/a");
    assert_eq!(show("/root", "\\\\", true), "//");
}

#[test]
fn root_itself_is_never_taken_for_a_repository() {
    assert_eq!(MIN_DEPTH, 1);
    let entries = vec![entry("/r", 0, true), entry("/r/a", 1, true), entry("/r/a/b", 2, true)];
    assert_eq!(list_managed("/r", &entries, false), ["a"]);
}
