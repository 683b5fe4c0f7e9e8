//! The choice of a local branch by a part of its name.

use crate::error::Error;
use crate::text::{contains_text, count_char, occurrences, occurs_in};
use vstd::prelude::*;
use vstd::string::*;

verus! {

/// The number of parts that the `/` in `name` delimit.
pub open spec fn segments(name: Seq<char>) -> nat {
    occurrences(name, '/') + 1
}

/// `a` does not rank above `b`: it has fewer segments, or as many and no
/// more characters.
pub open spec fn ranks_up_to(a: Seq<char>, b: Seq<char>) -> bool {
    segments(a) < segments(b) || (segments(a) == segments(b) && a.len() <= b.len())
}

/// The names of `branches`, as sequences of characters.
pub open spec fn names_of(branches: Seq<String>) -> Seq<Seq<char>> {
    branches.map_values(|branch: String| branch@)
}

/// The branch at index `i` holds `name` somewhere in its full name.
pub open spec fn is_candidate(names: Seq<Seq<char>>, name: Seq<char>, i: int) -> bool {
    0 <= i < names.len() && occurs_in(name, names[i])
}

/// The branch at index `i` is the one to take: a candidate that no
/// candidate outranks, and the last such among those that rank alike.
pub open spec fn is_selected(names: Seq<Seq<char>>, name: Seq<char>, i: int) -> bool {
    &&& is_candidate(names, name, i)
    &&& forall|j: int| #[trigger]
        is_candidate(names, name, j) ==> ranks_up_to(names[j], names[i]) && (j > i ==> !ranks_up_to(
            names[i],
            names[j],
        ))
}

/// At most one branch is selected.
pub proof fn lemma_selected_is_unique(names: Seq<Seq<char>>, name: Seq<char>, i: int, j: int)
    requires
        is_selected(names, name, i),
        is_selected(names, name, j),
    ensures
        i == j,
{
}

/// Tells whether the name `a` does not rank above the name `b`.
pub fn ranks_no_higher(a: &str, b: &str) -> (below: bool)
    ensures
        below == ranks_up_to(a@, b@),
{
    let sa = count_char(a, '/');
    let sb = count_char(b, '/');
    if sa != sb {
        sa < sb
    } else {
        a.unicode_len() <= b.unicode_len()
    }
}

/// Picks, among the branches whose name holds `name`, the one with the
/// most segments and, among those, the longest name; of several that rank
/// alike, the last. The result is its index in `branches`.
pub fn resolve_branch(branches: &Vec<String>, name: &str) -> (r: Result<usize, Error>)
    ensures
        (match r {
            Ok(i) => is_selected(names_of(branches@), name@, i as int),
            Err(Error::NoMatchingBranch { name: wanted }) => wanted@ == name@ && forall|j: int|
                !is_candidate(names_of(branches@), name@, j),
            Err(_) => false,
        }),
{
    let ghost names = names_of(branches@);
    let mut best: Option<usize> = None;
    let mut i: usize = 0;
    while i < branches.len()
        invariant
            i <= branches.len(),
            names == names_of(branches@),
            match best {
                Some(b) => b < i && is_selected(names.take(i as int), name@, b as int),
                None => forall|j: int| !is_candidate(names.take(i as int), name@, j),
            },
        decreases branches.len() - i,
    {
        let ghost seen = names.take(i as int);
        let ghost next = names.take(i + 1);
        proof {
            // A candidate among the first `i + 1` branches is the branch at
            // `i` or a candidate among the first `i`.
            assert forall|j: int| is_candidate(next, name@, j) implies j == i || is_candidate(
                seen,
                name@,
                j,
            ) by {}
            if best is Some {
                assert(is_candidate(seen, name@, best->0 as int));
            }
        }
        if contains_text(branches[i].as_str(), name) {
            let take = match best {
                Some(b) => ranks_no_higher(branches[b].as_str(), branches[i].as_str()),
                None => true,
            };
            if take {
                best = Some(i);
            }
        }
        i += 1;
    }
    proof {
        assert(names.take(i as int) =~= names);
    }
    match best {
        Some(b) => Ok(b),
        None => Err(Error::NoMatchingBranch { name: String::from_str(name) }),
    }
}

} // verus!
