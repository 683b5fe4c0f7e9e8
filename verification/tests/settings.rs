use grm::config::{
    branch_tracking, get_default_branch, get_root_dir, get_username, require_repository, root_key,
    Tracking, DEFAULT_BRANCH, DEFAULT_BRANCH_KEY, ORIGIN, TOOL_NAME, USERNAME_KEY,
};
use grm::error::{Error, Setting};

fn some(text: &str) -> Option<String> {
    Some(text.to_string())
}

#[test]
fn names_of_the_settings() {
    assert_eq!(TOOL_NAME, "grm");
    assert_eq!(root_key(), "grm.root");
    assert_eq!(USERNAME_KEY, "user.name");
    assert_eq!(DEFAULT_BRANCH_KEY, "init.defaultBranch");
    assert_eq!(DEFAULT_BRANCH, "master");
    assert_eq!(ORIGIN, "origin");
}

#[test]
fn configured_root_dir_wins() {
    assert_eq!(get_root_dir(some("/srv/repos"), some("/home/me")), Ok("/srv/repos".to_string()));
    assert_eq!(get_root_dir(some("/srv/repos"), None), Ok("/srv/repos".to_string()));
}

#[test]
fn root_dir_falls_back_to_the_home_directory() {
    assert_eq!(get_root_dir(None, some("/home/me")), Ok("/home/me/grm".to_string()));
    assert_eq!(get_root_dir(None, some("/home/me/")), Ok("/home/me/grm".to_string()));
}

#[test]
fn root_dir_without_any_source() {
    assert_eq!(
        get_root_dir(None, None),
        Err(Error::ConfigResolutionFailure { setting: Setting::RootDirectory }),
    );
}

#[test]
fn configured_username_wins() {
    assert_eq!(get_username(some("Foo Bar"), some("foo")), Ok("Foo Bar".to_string()));
    assert_eq!(get_username(None, some("foo")), Ok("foo".to_string()));
}

#[test]
fn username_without_any_source() {
    assert_eq!(
        get_username(None, None),
        Err(Error::ConfigResolutionFailure { setting: Setting::Username }),
    );
}

#[test]
fn default_branch_falls_back_to_master() {
    assert_eq!(get_default_branch(some("main")), "main");
    assert_eq!(get_default_branch(None), "master");
}

#[test]
fn repository_is_required() {
    assert_eq!(require_repository(some("/r/a")), Ok("/r/a".to_string()));
    assert_eq!(require_repository(None), Err(Error::NoCurrentRepository));
}

#[test]
fn branch_tracking_settings() {
    assert_eq!(
        branch_tracking("main"),
        Tracking {
            remote_key: "branch.main.remote".to_string(),
            merge_key: "branch.main.merge".to_string(),
            merge_ref: "refs/heads/main".to_string(),
        },
    );
}

#[test]
fn messages_name_what_failed() {
    assert_eq!(
        Error::InvalidReference { reference: "a/b/c/d".to_string() }.message(),
        "invalid repository reference `a/b/c/d`",
    );
    assert_eq!(
        Error::MissingDomain { url: "data:a/b/c/d".to_string() }.message(),
        "cannot find a domain name from `data:a/b/c/d`",
    );
    assert_eq!(
        Error::UnmanagedRepository { path: "/x".to_string(), root: "/r".to_string() }.message(),
        "`/x` is not under `/r`",
    );
    assert_eq!(
        Error::NoMatchingBranch { name: "dev".to_string() }.message(),
        "no branch matches `dev`",
    );
    assert_eq!(Error::NoCurrentRepository.message(), "not in a repository");
    assert_eq!(
        Error::ConfigResolutionFailure { setting: Setting::RootDirectory }.message(),
        "failed to get root dir",
    );
    assert_eq!(
        Error::ConfigResolutionFailure { setting: Setting::Username }.message(),
        "failed to get username",
    );
}
