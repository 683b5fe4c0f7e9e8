//! Settings that come from the configuration, and what stands in for them
//! where the configuration is silent.

use crate::error::{Error, Setting};
use crate::path::{join, joined};
use vstd::prelude::*;
use vstd::string::*;

verus! {

/// The name of the tool: the section of its configuration keys, and the
/// directory under the home directory that is the root by default.
pub const TOOL_NAME: &'static str = "grm";

/// The configuration key of the user's name.
pub const USERNAME_KEY: &'static str = "user.name";

/// The configuration key of the branch that a new repository starts on.
pub const DEFAULT_BRANCH_KEY: &'static str = "init.defaultBranch";

/// The branch that a new repository starts on where none is configured.
pub const DEFAULT_BRANCH: &'static str = "master";

/// The remote that a new repository tracks.
pub const ORIGIN: &'static str = "origin";

/// The settings that tie a branch to the branch of the same name on the
/// remote: two configuration keys, and the value of the second.
#[derive(Clone, Debug, PartialEq, Eq)]
pub struct Tracking {
    /// The key under which the branch's remote is stored.
    pub remote_key: String,
    /// The key under which the branch's upstream reference is stored.
    pub merge_key: String,
    /// The upstream reference.
    pub merge_ref: String,
}

/// The root directory: the configured one, else the tool's directory under
/// the home directory, else nothing.
pub open spec fn root_dir(configured: Option<Seq<char>>, home: Option<Seq<char>>) -> Option<
    Seq<char>,
> {
    match configured {
        Some(dir) => Some(dir),
        None => match home {
            Some(dir) => Some(joined(dir, TOOL_NAME@)),
            None => None,
        },
    }
}

/// The first of two sources that gives a value.
pub open spec fn first_of(configured: Option<Seq<char>>, fallback: Option<Seq<char>>) -> Option<
    Seq<char>,
> {
    match configured {
        Some(value) => Some(value),
        None => fallback,
    }
}

/// The view of an optional string.
pub open spec fn text_of(value: Option<String>) -> Option<Seq<char>> {
    match value {
        Some(text) => Some(text@),
        None => None,
    }
}

/// Settles the root directory from what the configuration holds under the
/// key that `root_key` gives, and from the home directory.
pub fn get_root_dir(configured: Option<String>, home: Option<String>) -> (r: Result<String, Error>)
    ensures
        (match root_dir(text_of(configured), text_of(home)) {
            Some(dir) => r matches Ok(found) && found@ == dir,
            None => r == Err::<String, Error>(
                Error::ConfigResolutionFailure { setting: Setting::RootDirectory },
            ),
        }),
{
    match configured {
        Some(dir) => Ok(dir),
        None => match home {
            Some(dir) => Ok(join(dir.as_str(), TOOL_NAME)),
            None => Err(Error::ConfigResolutionFailure { setting: Setting::RootDirectory }),
        },
    }
}

/// Settles the user's name from what the configuration holds under
/// `USERNAME_KEY` and from the login name that the system reports.
pub fn get_username(configured: Option<String>, login: Option<String>) -> (r: Result<
    String,
    Error,
>)
    ensures
        (match first_of(text_of(configured), text_of(login)) {
            Some(name) => r matches Ok(found) && found@ == name,
            None => r == Err::<String, Error>(
                Error::ConfigResolutionFailure { setting: Setting::Username },
            ),
        }),
{
    match configured {
        Some(name) => Ok(name),
        None => match login {
            Some(name) => Ok(name),
            None => Err(Error::ConfigResolutionFailure { setting: Setting::Username }),
        },
    }
}

/// Settles the branch that a new repository starts on from what the
/// configuration holds under `DEFAULT_BRANCH_KEY`.
pub fn get_default_branch(configured: Option<String>) -> (branch: String)
    ensures
        branch@ == (match configured {
            Some(name) => name@,
            None => DEFAULT_BRANCH@,
        }),
{
    match configured {
        Some(name) => name,
        None => String::from_str(DEFAULT_BRANCH),
    }
}

/// Insists on a repository around the current directory: hands on the main
/// working directory of the one that was found.
pub fn require_repository(found: Option<String>) -> (r: Result<String, Error>)
    ensures
        (match found {
            Some(dir) => r == Ok::<String, Error>(dir),
            None => r == Err::<String, Error>(Error::NoCurrentRepository),
        }),
{
    match found {
        Some(dir) => Ok(dir),
        None => Err(Error::NoCurrentRepository),
    }
}

/// The configuration key of the root directory: `root` in the section of
/// the tool.
pub fn root_key() -> (key: String)
    ensures
        key@ == TOOL_NAME@ + ".root"@,
{
    String::from_str(TOOL_NAME).concat(".root")
}

/// The settings that make `branch` track the branch of its name on the
/// remote.
pub fn branch_tracking(branch: &str) -> (t: Tracking)
    ensures
        t.remote_key@ == "branch."@ + branch@ + ".remote"@,
        t.merge_key@ == "branch."@ + branch@ + ".merge"@,
        t.merge_ref@ == "refs/heads/"@ + branch@,
{
    Tracking {
        remote_key: String::from_str("branch.").concat(branch).concat(".remote"),
        merge_key: String::from_str("branch.").concat(branch).concat(".merge"),
        merge_ref: String::from_str("refs/heads/").concat(branch),
    }
}

} // verus!
