//! Where a repository and its linked working copies live under the root.

use crate::error::Error;
use crate::path::{
    components, is_under, join, joined, joined_all, lemma_components_clean,
    lemma_components_concat, lemma_components_of_joined_all, lemma_components_of_separators,
    lemma_components_single, lemma_is_under_transitive, lemma_joined_components, relative_to,
    strip_root, SEPARATOR,
};
use crate::remote::{RepoUrl, UrlParts};
use crate::text::{
    lemma_replaced_clean, lemma_without_leading_start, replace_char, replaced, trim_leading,
    without_leading,
};
use vstd::prelude::*;
use vstd::string::*;

verus! {

/// The directory, under the root, that holds the linked working copies.
pub const WORKTREES_DIR: &'static str = "worktrees";

/// What stands for a `/` of a branch name in the name of its working copy.
pub const BRANCH_SEPARATOR: &'static str = "__";

/// A linked working copy that is to be made.
#[derive(Clone, Debug, PartialEq, Eq)]
pub struct Worktree {
    /// The name under which the repository knows the working copy.
    pub name: String,
    /// The directory of the working copy.
    pub path: String,
}

/// The directory of the repository that `url` locates: under `root`, the
/// domain, and under that the URL's path without the slashes it starts
/// with. A URL without a domain, or with an empty one, has no directory.
pub open spec fn local_path(root: Seq<char>, url: UrlParts) -> Option<Seq<char>> {
    match url.domain {
        Some(domain) => if domain.len() > 0 {
            Some(joined(joined(root, domain), without_leading(url.path, SEPARATOR)))
        } else {
            None
        },
        None => None,
    }
}

/// The name of the working copy for `branch`: the branch name with each
/// `/` replaced, so that it is one path component.
pub open spec fn worktree_name(branch: Seq<char>) -> Seq<char> {
    replaced(branch, SEPARATOR, BRANCH_SEPARATOR@)
}

/// The directory of the working copy for `branch` of the repository whose
/// main working directory is `main_dir`: under `root`, the directory of the
/// working copies, the way from `root` to `main_dir`, and the name of the
/// working copy. There is none unless `main_dir` is under `root`.
pub open spec fn worktree_path(root: Seq<char>, main_dir: Seq<char>, branch: Seq<char>) -> Option<
    Seq<char>,
> {
    match relative_to(main_dir, root) {
        Some(rel) => Some(
            joined(joined(joined(root, WORKTREES_DIR@), rel), worktree_name(branch)),
        ),
        None => None,
    }
}

proof fn lemma_literal_names()
    ensures
        WORKTREES_DIR@.len() > 0,
        !WORKTREES_DIR@.contains(SEPARATOR),
        BRANCH_SEPARATOR@.len() > 0,
        !BRANCH_SEPARATOR@.contains(SEPARATOR),
{
    reveal_strlit("worktrees");
    reveal_strlit("__");
}

/// Under a root that is not empty and does not end in a separator, and
/// for a domain that neither starts nor ends with one, the directory of a
/// repository is the root, the domain and the path of the URL without its
/// leading slashes, with one separator between each two.
pub proof fn lemma_local_path_form(root: Seq<char>, url: UrlParts)
    requires
        root.len() > 0,
        root.last() != SEPARATOR,
        url.domain is Some,
        url.domain->0.len() > 0,
        url.domain->0.first() != SEPARATOR,
        url.domain->0.last() != SEPARATOR,
    ensures
        local_path(root, url) == Some(
            root + seq![SEPARATOR] + url.domain->0 + seq![SEPARATOR] + without_leading(
                url.path,
                SEPARATOR,
            ),
        ),
{
    lemma_without_leading_start(url.path, SEPARATOR);
}

/// Whatever the root looks like, the directory of a repository lies under
/// it: its components are those of the root, the domain, and those of the
/// URL's path, and the way to it from the root is the domain and the path.
pub proof fn lemma_local_path_is_managed(root: Seq<char>, url: UrlParts)
    requires
        url.domain is Some,
        url.domain->0.len() > 0,
        !url.domain->0.contains(SEPARATOR),
    ensures
        local_path(root, url) is Some,
        components(local_path(root, url)->0) == components(root) + seq![url.domain->0]
            + components(url.path),
        is_under(local_path(root, url)->0, root),
        relative_to(local_path(root, url)->0, root) == Some(
            joined_all(seq![url.domain->0] + components(url.path)),
        ),
{
    let domain = url.domain->0;
    let below = without_leading(url.path, SEPARATOR);
    let host_dir = joined(root, domain);
    let found = joined(host_dir, below);
    lemma_without_leading_start(url.path, SEPARATOR);
    lemma_joined_components(root, domain);
    lemma_joined_components(host_dir, below);
    lemma_components_single(domain);
    let dropped = url.path.take(url.path.len() - below.len());
    assert(dropped + below =~= url.path);
    lemma_components_of_separators(dropped);
    lemma_components_concat(dropped, below);
    lemma_is_under_transitive(found, host_dir, root);
    assert((components(root) + seq![domain] + components(url.path)).skip(
        components(root).len() as int,
    ) =~= seq![domain] + components(url.path));
}

/// The name of a working copy holds no separator: it is a single path
/// component, and the branch name itself where that holds none.
pub proof fn lemma_worktree_name_is_segment(branch: Seq<char>)
    ensures
        !worktree_name(branch).contains(SEPARATOR),
        branch.len() > 0 ==> worktree_name(branch).len() > 0,
        !branch.contains(SEPARATOR) ==> worktree_name(branch) == branch,
{
    lemma_literal_names();
    lemma_replaced_clean(branch, SEPARATOR, BRANCH_SEPARATOR@);
}

/// The working copy of a managed repository lies under the directory of the
/// working copies, at the end of the way that leads from the root to the
/// repository, and its last component is the name of the working copy.
pub proof fn lemma_worktree_path_is_managed(root: Seq<char>, main_dir: Seq<char>, branch: Seq<char>)
    requires
        is_under(main_dir, root),
        branch.len() > 0,
    ensures
        worktree_path(root, main_dir, branch) is Some,
        components(worktree_path(root, main_dir, branch)->0) == components(root) + seq![
            WORKTREES_DIR@,
        ] + components(main_dir).skip(components(root).len() as int) + seq![worktree_name(branch)],
        is_under(worktree_path(root, main_dir, branch)->0, joined(root, WORKTREES_DIR@)),
        is_under(worktree_path(root, main_dir, branch)->0, root),
{
    lemma_literal_names();
    lemma_worktree_name_is_segment(branch);
    let name = worktree_name(branch);
    let way = components(main_dir).skip(components(root).len() as int);
    let rel = joined_all(way);
    let all = joined(root, WORKTREES_DIR@);
    let home = joined(all, rel);
    let path = joined(home, name);
    lemma_components_clean(main_dir);
    assert forall|i: int| 0 <= i < way.len() implies (#[trigger] way[i]).len() > 0
        && !way[i].contains(SEPARATOR) by {}
    lemma_components_of_joined_all(way);
    lemma_components_single(WORKTREES_DIR@);
    lemma_components_single(name);
    lemma_joined_components(root, WORKTREES_DIR@);
    lemma_joined_components(all, rel);
    lemma_joined_components(home, name);
    lemma_is_under_transitive(path, home, all);
    lemma_is_under_transitive(path, all, root);
}

/// Derives the local directory of the repository at `origin`.
pub fn get_repo_path(root_dir: &str, origin: &RepoUrl) -> (r: Result<String, Error>)
    ensures
        (match local_path(root_dir@, origin@) {
            Some(path) => r matches Ok(found) && found@ == path,
            None => r matches Err(Error::MissingDomain { url }) && url@ == origin@.text,
        }),
{
    match &origin.domain {
        Some(domain) => {
            if domain.as_str().unicode_len() > 0 {
                let below = trim_leading(origin.path.as_str(), SEPARATOR);
                let host_dir = join(root_dir, domain.as_str());
                return Ok(join(host_dir.as_str(), below.as_str()));
            }
        },
        None => {},
    }
    Err(Error::MissingDomain { url: origin.text.clone() })
}

/// Derives the name and the directory of the working copy for `branch` of
/// the repository whose main working directory is `main_dir`.
pub fn get_worktree_path(root_dir: &str, main_dir: &str, branch: &str) -> (r: Result<
    Worktree,
    Error,
>)
    ensures
        (match worktree_path(root_dir@, main_dir@, branch@) {
            Some(path) => r matches Ok(tree) && tree.path@ == path && tree.name@ == worktree_name(
                branch@,
            ),
            None => r matches Err(Error::UnmanagedRepository { path, root }) && path@ == main_dir@
                && root@ == root_dir@,
        }),
{
    match strip_root(main_dir, root_dir) {
        Some(rel) => {
            let name = replace_char(branch, SEPARATOR, BRANCH_SEPARATOR);
            let all = join(root_dir, WORKTREES_DIR);
            let home = join(all.as_str(), rel.as_str());
            let path = join(home.as_str(), name.as_str());
            Ok(Worktree { name, path })
        },
        None => Err(
            Error::UnmanagedRepository {
                path: String::from_str(main_dir),
                root: String::from_str(root_dir),
            },
        ),
    }
}

} // verus!
