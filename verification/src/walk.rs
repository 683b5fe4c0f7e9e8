//! The walk that finds the managed repositories.
//!
//! The walk goes depth first through the tree below the root and comes to
//! each directory before its contents. A directory that is a repository is
//! reported, and nothing below it is.

use crate::path::{relative_to, strip_root};
use crate::text::{replace_char, replaced};
use vstd::prelude::*;
use vstd::string::*;

verus! {

/// The depth from which on the walk looks at entries: the root itself, at
/// depth 0, is never taken for a repository.
pub const MIN_DEPTH: usize = 1;

/// One entry of a depth-first walk that was recorded.
#[derive(Clone, Debug, PartialEq, Eq)]
pub struct Entry {
    /// The path of the entry.
    pub path: String,
    /// How many levels below the root the entry lies.
    pub depth: usize,
    /// Whether the entry can be opened as a repository.
    pub is_repository: bool,
}

/// What the walk knows of an entry that it has come to.
pub ghost struct Seen {
    pub path: Seq<char>,
    pub depth: usize,
    pub is_repository: bool,
}

/// What the walk does with an entry that it has come to.
#[derive(Clone, Debug, PartialEq, Eq)]
pub enum Visit {
    /// The entry is not reported: it is no repository, or lies below one.
    Pass,
    /// The entry is a repository that lies below no other: it is reported
    /// as `shown`, and nothing below it needs to be looked at.
    Report { shown: String },
}

/// A walk in progress: it remembers below which repository it is.
pub struct Walk {
    /// The depth of the repository that was reported last, as long as the
    /// walk has not left the tree below it.
    pruned: Option<usize>,
    /// The entries that the walk has come to so far.
    seen: Ghost<Seq<Seen>>,
    /// Where among them the repository stands that `pruned` speaks of.
    top: Ghost<int>,
}

impl View for Entry {
    type V = Seen;

    open spec fn view(&self) -> Seen {
        Seen { path: self.path@, depth: self.depth, is_repository: self.is_repository }
    }
}

impl Seen {
    /// The entry counts as a repository: it can be opened as one, and lies
    /// deep enough for the walk to look at it.
    pub open spec fn counts(self) -> bool {
        self.is_repository && self.depth >= MIN_DEPTH
    }
}

/// The views of `entries`.
pub open spec fn seen_of(entries: Seq<Entry>) -> Seq<Seen> {
    entries.map_values(|entry: Entry| entry@)
}

/// How a repository at `path` is shown: as it is where `absolute` is asked
/// for or where it does not lie under `root`, else by its way from `root`;
/// in either case with `/` for every `\`.
pub open spec fn shown_path(root: Seq<char>, path: Seq<char>, absolute: bool) -> Seq<char> {
    let chosen = if absolute {
        path
    } else {
        match relative_to(path, root) {
            Some(rel) => rel,
            None => path,
        }
    };
    replaced(chosen, '\\', "/"@)
}

/// Every entry after `j` and before `upto` lies deeper than entry `j`:
/// they all lie in the tree below it.
pub open spec fn covers(entries: Seq<Seen>, j: int, upto: int) -> bool {
    forall|k: int| j < k < upto ==> (#[trigger] entries[k]).depth > entries[j].depth
}

/// Entry `j` is a directory above entry `i`.
pub open spec fn is_above(entries: Seq<Seen>, j: int, i: int) -> bool {
    0 <= j < i < entries.len() && covers(entries, j, i + 1)
}

/// Entry `i` is reported: it counts as a repository, and no directory
/// above it does.
pub open spec fn is_reported(entries: Seq<Seen>, i: int) -> bool {
    &&& 0 <= i < entries.len()
    &&& entries[i].counts()
    &&& forall|j: int| #[trigger] is_above(entries, j, i) ==> !entries[j].counts()
}

/// What the walk reports of the first `upto` entries, in their order.
pub open spec fn listing(root: Seq<char>, entries: Seq<Seen>, upto: int, absolute: bool) -> Seq<
    Seq<char>,
>
    decreases upto,
{
    if upto <= 0 {
        Seq::empty()
    } else {
        let before = listing(root, entries, upto - 1, absolute);
        if is_reported(entries, upto - 1) {
            before.push(shown_path(root, entries[upto - 1].path, absolute))
        } else {
            before
        }
    }
}

/// Nothing below a repository is reported: the walk never descends into
/// the tree of one.
pub proof fn lemma_nothing_reported_below(entries: Seq<Seen>, j: int, i: int)
    requires
        is_above(entries, j, i),
        entries[j].counts(),
    ensures
        !is_reported(entries, i),
{
}

/// Whether an entry is reported depends on the entries up to it alone:
/// what comes later takes nothing back.
pub proof fn lemma_reported_for_good(entries: Seq<Seen>, longer: Seq<Seen>, i: int)
    requires
        entries.is_prefix_of(longer),
        0 <= i < entries.len(),
    ensures
        is_reported(longer, i) == is_reported(entries, i),
{
    assert forall|k: int| 0 <= k < entries.len() implies entries[k] == longer[k] by {}
    assert forall|j: int| is_above(entries, j, i) == is_above(longer, j, i) by {}
}

/// What is listed of a walk stays listed as the walk goes on.
pub proof fn lemma_listing_grows(
    root: Seq<char>,
    entries: Seq<Seen>,
    upto: int,
    more: int,
    absolute: bool,
)
    requires
        0 <= upto <= more,
    ensures
        listing(root, entries, upto, absolute).is_prefix_of(listing(root, entries, more, absolute)),
    decreases more - upto,
{
    if upto < more {
        lemma_listing_grows(root, entries, upto, more - 1, absolute);
    }
}

/// How a repository at `path` is shown.
pub fn show(root_dir: &str, path: &str, absolute: bool) -> (shown: String)
    ensures
        shown@ == shown_path(root_dir@, path@, absolute),
{
    if absolute {
        replace_char(path, '\\', "/")
    } else {
        match strip_root(path, root_dir) {
            Some(rel) => replace_char(rel.as_str(), '\\', "/"),
            None => replace_char(path, '\\', "/"),
        }
    }
}

impl Walk {
    /// While the walk is below a reported repository, `top` is that
    /// repository; and it is below one whenever a repository came up that
    /// everything since lies below.
    #[verifier::type_invariant]
    spec fn well_formed(self) -> bool {
        let seen = self.seen@;
        &&& self.pruned matches Some(d) ==> 0 <= self.top@ < seen.len() && seen[self.top@].counts()
            && seen[self.top@].depth == d && covers(seen, self.top@, seen.len() as int)
        &&& forall|j: int|
            0 <= j < seen.len() && seen[j].counts() && #[trigger] covers(
                seen,
                j,
                seen.len() as int,
            ) ==> self.pruned is Some && self.pruned->0 <= seen[j].depth
    }

    /// The entries that the walk has come to so far, in order.
    pub closed spec fn seen(self) -> Seq<Seen> {
        self.seen@
    }

    /// A walk that has not come to any entry yet.
    pub fn new() -> (walk: Walk)
        ensures
            walk.seen() == Seq::<Seen>::empty(),
    {
        Walk { pruned: None, seen: Ghost(Seq::empty()), top: Ghost(0) }
    }

    /// Takes the walk to its next entry, and decides what is done with it.
    pub fn visit(
        &mut self,
        root_dir: &str,
        path: &str,
        depth: usize,
        is_repository: bool,
        absolute: bool,
    ) -> (v: Visit)
        ensures
            final(self).seen() == old(self).seen().push(
                (Seen { path: path@, depth, is_repository }),
            ),
            (match v {
                Visit::Pass => !is_reported(final(self).seen(), old(self).seen().len() as int),
                Visit::Report { shown } => is_reported(
                    final(self).seen(),
                    old(self).seen().len() as int,
                ) && shown@ == shown_path(root_dir@, path@, absolute),
            }),
    {
        proof {
            use_type_invariant(&*self);
        }
        let ghost seen = self.seen@;
        let ghost n = seen.len() as int;
        let ghost next = seen.push(Seen { path: path@, depth, is_repository });
        let ghost top = self.top@;
        proof {
            // Among the entries that were there, nothing has changed; and a
            // repository that everything since lies below, the new entry
            // too, was one that the walk was below.
            assert forall|j: int| 0 <= j < n implies next[j] == seen[j] && covers(next, j, n)
                == covers(seen, j, n) by {
                assert forall|k: int| j < k < n implies next[k] == seen[k] by {}
            }
            assert forall|j: int|
                0 <= j < n && next[j].counts() && #[trigger] covers(
                    next,
                    j,
                    n + 1,
                ) implies self.pruned is Some && self.pruned->0 <= seen[j].depth && seen[j].depth
                < depth by {
                assert(next[n].depth > next[j].depth);
            }
        }
        let below = match self.pruned {
            Some(d) => depth > d,
            None => false,
        };
        if below {
            proof {
                // The repository that the walk is below lies above the new
                // entry.
                assert(is_above(next, top, n));
            }
            *self = Walk { pruned: self.pruned, seen: Ghost(next), top: Ghost(top) };
            Visit::Pass
        } else if is_repository && depth >= MIN_DEPTH {
            proof {
                // A repository above the new entry would be one that the
                // walk is below.
                assert forall|j: int| #[trigger] is_above(next, j, n) implies !next[j].counts() by {}
            }
            *self = Walk { pruned: Some(depth), seen: Ghost(next), top: Ghost(n) };
            Visit::Report { shown: show(root_dir, path, absolute) }
        } else {
            *self = Walk { pruned: None, seen: Ghost(next), top: Ghost(top) };
            Visit::Pass
        }
    }
}

/// Lists the managed repositories among the recorded `entries`: those
/// repositories that lie below no other, each shown as the walk shows it.
pub fn list_managed(root_dir: &str, entries: &Vec<Entry>, absolute: bool) -> (out: Vec<String>)
    ensures
        out@.map_values(|shown: String| shown@) == listing(
            root_dir@,
            seen_of(entries@),
            entries@.len() as int,
            absolute,
        ),
{
    let ghost all = seen_of(entries@);
    let mut out: Vec<String> = Vec::new();
    let mut walk = Walk::new();
    let mut i: usize = 0;
    while i < entries.len()
        invariant
            i <= entries.len(),
            all == seen_of(entries@),
            walk.seen() == all.take(i as int),
            out@.map_values(|shown: String| shown@) == listing(root_dir@, all, i as int, absolute),
        decreases entries.len() - i,
    {
        let entry = &entries[i];
        let visit = walk.visit(
            root_dir,
            entry.path.as_str(),
            entry.depth,
            entry.is_repository,
            absolute,
        );
        proof {
            assert(walk.seen() =~= all.take(i + 1));
            lemma_reported_for_good(all.take(i + 1), all, i as int);
        }
        match visit {
            Visit::Report { shown } => {
                out.push(shown);
            },
            Visit::Pass => {},
        }
        i += 1;
    }
    out
}

} // verus!
