use grm::branch::{ranks_no_higher, resolve_branch};
use grm::error::Error;

fn names(list: &[&str]) -> Vec<String> {
    list.iter().map(|name| name.to_string()).collect()
}

#[test]
fn branch_with_most_segments_is_taken() {
    let branches = names(&["login", "feature/login", "team/feature/login", "main"]);
    assert_eq!(resolve_branch(&branches, "login"), Ok(2));
}

#[test]
fn longest_name_is_taken_among_equal_segments() {
    let branches = names(&["fix/login-form", "fix/login", "fix/log"]);
    assert_eq!(resolve_branch(&branches, "log"), Ok(0));
    // Segments weigh more than length.
    let branches = names(&["a/b", "a-very-long-name-with-b"]);
    assert_eq!(resolve_branch(&branches, "b"), Ok(0));
}

#[test]
fn last_of_equally_ranked_branches_is_taken() {
    let branches = names(&["x/ab", "x/ba", "x/bb"]);
    assert_eq!(resolve_branch(&branches, "b"), Ok(2));
    assert_eq!(resolve_branch(&branches, "a"), Ok(1));
}

#[test]
fn only_branches_that_hold_the_name_count() {
    let branches = names(&["a/b/c/d", "dev", "x/dev"]);
    assert_eq!(resolve_branch(&branches, "dev"), Ok(2));
    assert_eq!(resolve_branch(&branches, ""), Ok(0));
}

#[test]
fn no_matching_branch() {
    let branches = names(&["main", "dev"]);
    assert_eq!(
        resolve_branch(&branches, "feature"),
        Err(Error::NoMatchingBranch { name: "feature".to_string() }),
    );
    assert_eq!(
        resolve_branch(&Vec::new(), ""),
        Err(Error::NoMatchingBranch { name: "".to_string() }),
    );
}

#[test]
fn ranks_by_segments_then_length() {
    assert!(ranks_no_higher("abc", "a/b"));
    assert!(!ranks_no_higher("a/b", "abc"));
    assert!(ranks_no_higher("a/b", "a/bc"));
    assert!(!ranks_no_higher("a/bc", "a/b"));
    assert!(ranks_no_higher("a/b", "c/d"));
    assert!(ranks_no_higher("c/d", "a/b"));
}
