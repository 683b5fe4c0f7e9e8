//! Paths as strings whose components are separated by `/`.

use crate::text::{append_chars, chars_of, same_chars, string_of};
use vstd::prelude::*;
use vstd::string::*;

verus! {

/// The character between two components of a path.
pub const SEPARATOR: char = '/';

/// A path that starts at the root of the file system.
pub open spec fn is_absolute(path: Seq<char>) -> bool {
    path.len() > 0 && path[0] == SEPARATOR
}

/// `rel` adjoined to `base`. An absolute `rel` replaces `base`; otherwise
/// one separator stands between the two, unless `base` is empty or brings
/// its own.
pub open spec fn joined(base: Seq<char>, rel: Seq<char>) -> Seq<char> {
    if is_absolute(rel) {
        rel
    } else if base.len() == 0 || base.last() == SEPARATOR {
        base + rel
    } else {
        base + seq![SEPARATOR] + rel
    }
}

/// The components of `path`, in order: its maximal runs of characters other
/// than the separator.
pub open spec fn components(path: Seq<char>) -> Seq<Seq<char>>
    decreases path.len(),
{
    if path.len() == 0 {
        Seq::empty()
    } else {
        let init = path.drop_last();
        let before = components(init);
        if path.last() == SEPARATOR {
            before
        } else if init.len() > 0 && init.last() != SEPARATOR {
            before.drop_last().push(before.last().push(path.last()))
        } else {
            before.push(seq![path.last()])
        }
    }
}

/// `parts` with one separator between each two of them.
pub open spec fn joined_all(parts: Seq<Seq<char>>) -> Seq<char>
    decreases parts.len(),
{
    if parts.len() == 0 {
        Seq::empty()
    } else if parts.len() == 1 {
        parts[0]
    } else {
        joined_all(parts.drop_last()) + seq![SEPARATOR] + parts.last()
    }
}

/// `path` is `root` or lies below it: both start at the same place, and
/// the components of `root` are the first components of `path`.
pub open spec fn is_under(path: Seq<char>, root: Seq<char>) -> bool {
    is_absolute(path) == is_absolute(root) && components(root).is_prefix_of(components(path))
}

/// The way from `root` to `path`, if `path` is under `root`: the components
/// of `path` that follow those of `root`.
pub open spec fn relative_to(path: Seq<char>, root: Seq<char>) -> Option<Seq<char>> {
    if is_under(path, root) {
        Some(joined_all(components(path).skip(components(root).len() as int)))
    } else {
        None
    }
}

/// The views of the components that a scan has collected: those that are
/// closed, and the one that is still growing, if it has a character yet.
spec fn collected(done: Seq<Vec<char>>, current: Seq<char>) -> Seq<Seq<char>> {
    let closed = done.map_values(|part: Vec<char>| part@);
    if current.len() > 0 {
        closed.push(current)
    } else {
        closed
    }
}

/// A path that does not end in a separator has a last component, and that
/// component ends as the path does.
pub proof fn lemma_components_open(path: Seq<char>)
    requires
        path.len() > 0,
        path.last() != SEPARATOR,
    ensures
        components(path).len() > 0,
        components(path).last().len() > 0,
        components(path).last().last() == path.last(),
    decreases path.len(),
{
    let init = path.drop_last();
    if init.len() > 0 && init.last() != SEPARATOR {
        lemma_components_open(init);
    }
}

/// No component is empty, and none holds a separator.
pub proof fn lemma_components_clean(path: Seq<char>)
    ensures
        forall|i: int|
            0 <= i < components(path).len() ==> (#[trigger] components(path)[i]).len() > 0
                && !components(path)[i].contains(SEPARATOR),
    decreases path.len(),
{
    if path.len() > 0 {
        let init = path.drop_last();
        let before = components(init);
        lemma_components_clean(init);
        if path.last() != SEPARATOR && init.len() > 0 && init.last() != SEPARATOR {
            // The last component grows by a character that is no separator.
            lemma_components_open(init);
            let grown = before.last().push(path.last());
            assert(!grown.contains(SEPARATOR)) by {
                if grown.contains(SEPARATOR) {
                    let j = choose|j: int| 0 <= j < grown.len() && grown[j] == SEPARATOR;
                    assert(before.last()[j] == SEPARATOR);
                }
            }
        } else if path.last() != SEPARATOR {
            // A new component starts with that character.
            let single = seq![path.last()];
            assert(!single.contains(SEPARATOR));
        }
    }
}

/// Where one path ends in a separator, or the next starts with one, or
/// either is empty, the components of the two written one after the other
/// are those of the first followed by those of the second.
pub proof fn lemma_components_concat(a: Seq<char>, b: Seq<char>)
    requires
        a.len() == 0 || a.last() == SEPARATOR || b.len() == 0 || b[0] == SEPARATOR,
    ensures
        components(a + b) == components(a) + components(b),
    decreases b.len(),
{
    if b.len() > 0 {
        let init = b.drop_last();
        assert((a + b).drop_last() =~= a + init);
        lemma_components_concat(a, init);
        if init.len() > 0 && init.last() != SEPARATOR {
            lemma_components_open(init);
        }
    }
}

/// Joining keeps the components of both sides, and the place where the
/// base starts, unless the second path is absolute.
pub proof fn lemma_joined_components(base: Seq<char>, rel: Seq<char>)
    requires
        !is_absolute(rel),
    ensures
        components(joined(base, rel)) == components(base) + components(rel),
        is_absolute(joined(base, rel)) == is_absolute(base),
        is_under(joined(base, rel), base),
{
    if base.len() == 0 || base.last() == SEPARATOR {
        lemma_components_concat(base, rel);
    } else {
        let closed = base + seq![SEPARATOR];
        assert(closed.drop_last() =~= base);
        lemma_components_concat(closed, rel);
    }
}

/// A path made of one component has that component and no other.
pub proof fn lemma_components_single(part: Seq<char>)
    requires
        part.len() > 0,
        !part.contains(SEPARATOR),
    ensures
        components(part) == seq![part],
    decreases part.len(),
{
    let init = part.drop_last();
    if init.len() > 0 {
        lemma_components_single(init);
        assert(init.push(part.last()) =~= part);
    } else {
        assert(seq![part.last()] =~= part);
        assert(components(init).len() == 0);
    }
}

/// A path that holds nothing but separators has no component.
pub proof fn lemma_components_of_separators(path: Seq<char>)
    requires
        forall|i: int| 0 <= i < path.len() ==> path[i] == SEPARATOR,
    ensures
        components(path).len() == 0,
    decreases path.len(),
{
    if path.len() > 0 {
        lemma_components_of_separators(path.drop_last());
    }
}

/// Components written out with separators between them are read back as
/// they were, and what is written does not start at the root.
pub proof fn lemma_components_of_joined_all(parts: Seq<Seq<char>>)
    requires
        forall|i: int|
            0 <= i < parts.len() ==> (#[trigger] parts[i]).len() > 0 && !parts[i].contains(
                SEPARATOR,
            ),
    ensures
        components(joined_all(parts)) == parts,
        !is_absolute(joined_all(parts)),
        parts.len() > 0 ==> joined_all(parts).len() > 0,
    decreases parts.len(),
{
    if parts.len() == 0 {
    } else if parts.len() == 1 {
        lemma_components_single(parts[0]);
    } else {
        let init = parts.drop_last();
        let last = parts.last();
        lemma_components_of_joined_all(init);
        lemma_components_single(last);
        let closed = joined_all(init) + seq![SEPARATOR];
        assert(closed.drop_last() =~= joined_all(init));
        lemma_components_concat(closed, last);
    }
}

/// What was joined to a base is found again, component by component, as
/// the way from the base.
pub proof fn lemma_relative_to_joined(base: Seq<char>, rel: Seq<char>)
    requires
        !is_absolute(rel),
    ensures
        relative_to(joined(base, rel), base) == Some(joined_all(components(rel))),
{
    lemma_joined_components(base, rel);
    assert((components(base) + components(rel)).skip(components(base).len() as int)
        =~= components(rel));
}

/// Being under a directory carries over: what is under `middle` is under
/// everything that `middle` is under.
pub proof fn lemma_is_under_transitive(path: Seq<char>, middle: Seq<char>, root: Seq<char>)
    requires
        is_under(path, middle),
        is_under(middle, root),
    ensures
        is_under(path, root),
{
    let p = components(path);
    let m = components(middle);
    let r = components(root);
    assert(r =~= p.subrange(0, r.len() as int));
}

/// Tells whether `path` starts at the root of the file system.
pub fn starts_at_root(path: &str) -> (absolute: bool)
    ensures
        absolute == is_absolute(path@),
{
    path.unicode_len() > 0 && path.get_char(0) == SEPARATOR
}

/// Adjoins `rel` to `base`.
pub fn join(base: &str, rel: &str) -> (out: String)
    ensures
        out@ == joined(base@, rel@),
{
    proof {
        reveal_strlit("/");
    }
    if starts_at_root(rel) {
        return String::from_str(rel);
    }
    let n = base.unicode_len();
    if n == 0 || base.get_char(n - 1) == SEPARATOR {
        String::from_str(base).concat(rel)
    } else {
        String::from_str(base).concat("/").concat(rel)
    }
}

/// Splits `path` into its components.
pub fn components_of(path: &str) -> (out: Vec<Vec<char>>)
    ensures
        out@.map_values(|part: Vec<char>| part@) == components(path@),
{
    let chars = chars_of(path);
    let mut done: Vec<Vec<char>> = Vec::new();
    let mut current: Vec<char> = Vec::new();
    let mut i: usize = 0;
    while i < chars.len()
        invariant
            i <= chars.len(),
            (current@.len() > 0) == (i > 0 && chars@[i - 1] != SEPARATOR),
            collected(done@, current@) == components(chars@.take(i as int)),
        decreases chars.len() - i,
    {
        let c = chars[i];
        proof {
            assert(chars@.take(i + 1).drop_last() =~= chars@.take(i as int));
        }
        if c == SEPARATOR {
            if current.len() > 0 {
                done.push(current);
                current = Vec::new();
            }
        } else {
            current.push(c);
            proof {
                if current@.len() == 1 {
                    assert(current@ =~= seq![c]);
                }
            }
        }
        i += 1;
    }
    proof {
        assert(chars@.take(i as int) =~= chars@);
    }
    if current.len() > 0 {
        done.push(current);
    }
    done
}

/// The components of `parts` from index `from` on, with one separator
/// between each two of them.
fn join_from(parts: &Vec<Vec<char>>, from: usize) -> (out: Vec<char>)
    requires
        from <= parts.len(),
    ensures
        out@ == joined_all(parts@.map_values(|part: Vec<char>| part@).skip(from as int)),
{
    let ghost rest = parts@.map_values(|part: Vec<char>| part@).skip(from as int);
    let mut out: Vec<char> = Vec::new();
    let mut k: usize = from;
    while k < parts.len()
        invariant
            from <= k <= parts.len(),
            rest == parts@.map_values(|part: Vec<char>| part@).skip(from as int),
            out@ == joined_all(rest.take(k - from)),
        decreases parts.len() - k,
    {
        proof {
            assert(rest.take(k - from + 1).drop_last() =~= rest.take(k - from));
        }
        if k > from {
            out.push(SEPARATOR);
        }
        append_chars(&mut out, &parts[k]);
        k += 1;
    }
    proof {
        assert(rest.take(k - from) =~= rest);
    }
    out
}

/// The way from `root` to `path`, or nothing where `path` is not under
/// `root`.
pub fn strip_root(path: &str, root: &str) -> (r: Option<String>)
    ensures
        (match relative_to(path@, root@) {
            Some(rel) => r matches Some(text) && text@ == rel,
            None => r is None,
        }),
{
    if starts_at_root(path) != starts_at_root(root) {
        return None;
    }
    let parts = components_of(path);
    let base = components_of(root);
    if base.len() > parts.len() {
        return None;
    }
    let ghost ps = components(path@);
    let ghost bs = components(root@);
    let mut i: usize = 0;
    while i < base.len()
        invariant
            i <= base.len() <= parts.len(),
            ps == components(path@),
            bs == components(root@),
            ps == parts@.map_values(|part: Vec<char>| part@),
            bs == base@.map_values(|part: Vec<char>| part@),
            forall|j: int| 0 <= j < i ==> ps[j] == bs[j],
        decreases base.len() - i,
    {
        if !same_chars(&parts[i], &base[i]) {
            proof {
                if bs.is_prefix_of(ps) {
                    assert(bs[i as int] == ps.subrange(0, bs.len() as int)[i as int]);
                }
            }
            return None;
        }
        i += 1;
    }
    let rest = join_from(&parts, base.len());
    Some(string_of(&rest))
}

} // verus!
