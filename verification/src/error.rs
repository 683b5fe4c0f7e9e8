//! The failures that the library reports.

use vstd::prelude::*;
use vstd::string::*;

verus! {

/// A value that is looked up in the configuration, with a fallback.
#[derive(Clone, Copy, Debug, PartialEq, Eq, Structural)]
pub enum Setting {
    /// The directory under which all managed repositories live.
    RootDirectory,
    /// The name of the user, which stands for the owner of a bare repository name.
    Username,
}

/// Why an operation could not be carried out.
#[derive(Clone, Debug, PartialEq, Eq)]
pub enum Error {
    /// The fully qualified reference is not a well-formed URL.
    InvalidReference { reference: String },
    /// The URL names no domain, so no directory can be derived from it.
    MissingDomain { url: String },
    /// The repository's main working directory does not lie under the root.
    UnmanagedRepository { path: String, root: String },
    /// No local branch contains the given name.
    NoMatchingBranch { name: String },
    /// The operation needs a repository around the current directory.
    NoCurrentRepository,
    /// Neither the configuration nor the fallback gave the setting.
    ConfigResolutionFailure { setting: Setting },
}

impl Error {
    /// The text of `message`.
    pub open spec fn message_text(self) -> Seq<char> {
        match self {
            Error::InvalidReference { reference } => "invalid repository reference `"@ + reference@
                + "`"@,
            Error::MissingDomain { url } => "cannot find a domain name from `"@ + url@ + "`"@,
            Error::UnmanagedRepository { path, root } => "`"@ + path@ + "` is not under `"@ + root@
                + "`"@,
            Error::NoMatchingBranch { name } => "no branch matches `"@ + name@ + "`"@,
            Error::NoCurrentRepository => "not in a repository"@,
            Error::ConfigResolutionFailure { setting } => match setting {
                Setting::RootDirectory => "failed to get root dir"@,
                Setting::Username => "failed to get username"@,
            },
        }
    }

    /// A description of the failure for the user.
    pub fn message(&self) -> (text: String)
        ensures
            text@ == self.message_text(),
    {
        match self {
            Error::InvalidReference { reference } => String::from_str(
                "invalid repository reference `",
            ).concat(reference.as_str()).concat("`"),
            Error::MissingDomain { url } => String::from_str(
                "cannot find a domain name from `",
            ).concat(url.as_str()).concat("`"),
            Error::UnmanagedRepository { path, root } => String::from_str("`").concat(
                path.as_str(),
            ).concat("` is not under `").concat(root.as_str()).concat("`"),
            Error::NoMatchingBranch { name } => String::from_str("no branch matches `").concat(
                name.as_str(),
            ).concat("`"),
            Error::NoCurrentRepository => String::from_str("not in a repository"),
            Error::ConfigResolutionFailure { setting } => match setting {
                Setting::RootDirectory => String::from_str("failed to get root dir"),
                Setting::Username => String::from_str("failed to get username"),
            },
        }
    }
}

} // verus!
