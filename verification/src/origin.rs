//! Inference of a repository's origin from an abbreviated reference.
//!
//! A reference is qualified step by step: a bare name gets an owner, an
//! owner and a name get a host, a host with owner and name gets a scheme.
//! Each step looks only at the number of `/` in the reference as it stands.

use crate::error::Error;
use crate::remote::{parse_outcome, parse_url, RepoUrl};
use crate::text::{count_char, has_char, lemma_occurrences_concat, occurrences};
use vstd::prelude::*;
use vstd::string::*;

verus! {

/// The host assumed for a reference that names none.
pub const DEFAULT_HOST: &'static str = "github.com";

/// The number of `/` in `s`.
pub open spec fn separators(s: Seq<char>) -> nat {
    occurrences(s, '/')
}

/// The scheme, and for secure shell the login, put in front of a reference
/// that starts with its host. A login that the reference brings is kept, and
/// only looked for under secure shell.
pub open spec fn scheme_prefix(ssh: bool, reference: Seq<char>) -> Seq<char> {
    if ssh && reference.contains('@') {
        "ssh://"@
    } else if ssh {
        "ssh://git@"@
    } else {
        "https://"@
    }
}

/// One round of qualification: the owner, the host or the scheme is put in
/// front, by the number of separators that `reference` holds now. A
/// reference with three separators or more is left alone.
pub open spec fn qualified_once(username: Seq<char>, ssh: bool, reference: Seq<char>) -> Seq<
    char,
> {
    let n = separators(reference);
    if n == 0 {
        username + "/"@ + reference
    } else if n == 1 {
        DEFAULT_HOST@ + "/"@ + reference
    } else if n == 2 {
        scheme_prefix(ssh, reference) + reference
    } else {
        reference
    }
}

/// The fully qualified form of `reference`: three rounds, after which no
/// round changes it any more.
pub open spec fn qualified(username: Seq<char>, ssh: bool, reference: Seq<char>) -> Seq<char> {
    qualified_once(
        username,
        ssh,
        qualified_once(username, ssh, qualified_once(username, ssh, reference)),
    )
}

/// An upper bound on the rounds that a reference with `n` separators still
/// needs.
spec fn rounds_left(n: nat) -> nat {
    if n < 3 {
        (3 - n) as nat
    } else {
        0
    }
}

/// Whether `r` is what becomes of the fully qualified reference `text`:
/// the URL that the parser makes of it, or the complaint that names it.
pub open spec fn origin_matches(text: Seq<char>, r: Result<RepoUrl, Error>) -> bool {
    match parse_outcome(text) {
        Some(parts) => r matches Ok(u) && u@ == parts,
        None => r matches Err(Error::InvalidReference { reference }) && reference@ == text,
    }
}

proof fn lemma_literal_separators()
    ensures
        separators(DEFAULT_HOST@) == 0,
        separators("/"@) == 1,
        separators("https://"@) == 2,
        separators("ssh://"@) == 2,
        separators("ssh://git@"@) == 2,
{
    reveal_strlit("github.com");
    reveal_strlit("/");
    reveal_strlit("https://");
    reveal_strlit("ssh://");
    reveal_strlit("ssh://git@");
    reveal_with_fuel(occurrences, 12);
}

/// A round leaves a reference with three separators or more as it is, and
/// gives any other reference at least one separator more: a bare name gets
/// those of the username and one, an owner and a name get one, and a
/// reference that starts with its host gets the two of the scheme.
pub proof fn lemma_round_adds_separators(username: Seq<char>, ssh: bool, reference: Seq<char>)
    ensures
        separators(reference) >= 3 ==> qualified_once(username, ssh, reference) == reference,
        separators(reference) < 3 ==> separators(qualified_once(username, ssh, reference))
            > separators(reference),
        separators(reference) == 0 ==> separators(qualified_once(username, ssh, reference))
            == separators(username) + 1,
        separators(reference) == 1 ==> separators(qualified_once(username, ssh, reference)) == 2,
        separators(reference) == 2 ==> separators(qualified_once(username, ssh, reference)) == 4,
{
    lemma_literal_separators();
    let n = separators(reference);
    if n == 0 {
        lemma_occurrences_concat(username, "/"@, '/');
        lemma_occurrences_concat(username + "/"@, reference, '/');
    } else if n == 1 {
        lemma_occurrences_concat(DEFAULT_HOST@, "/"@, '/');
        lemma_occurrences_concat(DEFAULT_HOST@ + "/"@, reference, '/');
    } else if n == 2 {
        lemma_occurrences_concat(scheme_prefix(ssh, reference), reference, '/');
    }
}

/// Qualification ends: the qualified form holds three separators or more.
pub proof fn lemma_qualified_is_terminal(username: Seq<char>, ssh: bool, reference: Seq<char>)
    ensures
        separators(qualified(username, ssh, reference)) >= 3,
{
    let once = qualified_once(username, ssh, reference);
    let twice = qualified_once(username, ssh, once);
    lemma_round_adds_separators(username, ssh, reference);
    lemma_round_adds_separators(username, ssh, once);
    lemma_round_adds_separators(username, ssh, twice);
}

/// A reference that already holds three separators or more passes through
/// unchanged, whatever the username and the scheme preference are.
pub proof fn lemma_full_reference_unchanged(username: Seq<char>, ssh: bool, reference: Seq<char>)
    requires
        separators(reference) >= 3,
    ensures
        qualified(username, ssh, reference) == reference,
{
    lemma_round_adds_separators(username, ssh, reference);
}

/// The qualified form of an unfinished reference is that of the reference
/// after one more round: qualification can be read as a recursion that
/// classifies the reference anew after every step.
pub proof fn lemma_qualified_unfolds(username: Seq<char>, ssh: bool, reference: Seq<char>)
    ensures
        qualified(username, ssh, qualified_once(username, ssh, reference)) == qualified(
            username,
            ssh,
            reference,
        ),
{
    lemma_qualified_is_terminal(username, ssh, reference);
    lemma_round_adds_separators(username, ssh, qualified(username, ssh, reference));
}

/// Qualifying twice is qualifying once.
pub proof fn lemma_qualified_idempotent(username: Seq<char>, ssh: bool, reference: Seq<char>)
    ensures
        qualified(username, ssh, qualified(username, ssh, reference)) == qualified(
            username,
            ssh,
            reference,
        ),
{
    lemma_qualified_is_terminal(username, ssh, reference);
    lemma_full_reference_unchanged(username, ssh, qualified(username, ssh, reference));
}

/// The qualified form, written out by the stage at which the reference
/// starts: a reference with a host gets its scheme; one with an owner gets
/// the default host first; a bare name gets the username first, and then
/// the host unless the username brings separators of its own.
pub proof fn lemma_qualified_forms(username: Seq<char>, ssh: bool, reference: Seq<char>)
    ensures
        separators(reference) == 2 ==> qualified(username, ssh, reference) == scheme_prefix(
            ssh,
            reference,
        ) + reference,
        separators(reference) == 1 ==> ({
            let hosted = DEFAULT_HOST@ + "/"@ + reference;
            qualified(username, ssh, reference) == scheme_prefix(ssh, hosted) + hosted
        }),
        separators(reference) == 0 && separators(username) == 0 ==> ({
            let hosted = DEFAULT_HOST@ + "/"@ + (username + "/"@ + reference);
            qualified(username, ssh, reference) == scheme_prefix(ssh, hosted) + hosted
        }),
{
    let once = qualified_once(username, ssh, reference);
    let twice = qualified_once(username, ssh, once);
    lemma_round_adds_separators(username, ssh, reference);
    lemma_round_adds_separators(username, ssh, once);
    lemma_round_adds_separators(username, ssh, twice);
}

/// Carries out one round of qualification.
pub fn qualify_once(username: &str, ssh: bool, reference: &str) -> (out: String)
    ensures
        out@ == qualified_once(username@, ssh, reference@),
{
    let n = count_char(reference, '/');
    if n == 0 {
        String::from_str(username).concat("/").concat(reference)
    } else if n == 1 {
        String::from_str(DEFAULT_HOST).concat("/").concat(reference)
    } else if n == 2 {
        let prefix = if ssh && has_char(reference, '@') {
            "ssh://"
        } else if ssh {
            "ssh://git@"
        } else {
            "https://"
        };
        String::from_str(prefix).concat(reference)
    } else {
        String::from_str(reference)
    }
}

/// Qualifies `reference` until it holds three separators or more.
pub fn qualify(username: &str, ssh: bool, reference: &str) -> (out: String)
    ensures
        out@ == qualified(username@, ssh, reference@),
        separators(out@) >= 3,
{
    let mut current = String::from_str(reference);
    let mut n = count_char(current.as_str(), '/');
    proof {
        lemma_qualified_is_terminal(username@, ssh, reference@);
    }
    while n < 3
        invariant
            n == separators(current@),
            qualified(username@, ssh, current@) == qualified(username@, ssh, reference@),
        decreases rounds_left(n as nat),
    {
        proof {
            lemma_round_adds_separators(username@, ssh, current@);
            lemma_qualified_unfolds(username@, ssh, current@);
        }
        current = qualify_once(username, ssh, current.as_str());
        n = count_char(current.as_str(), '/');
    }
    proof {
        lemma_full_reference_unchanged(username@, ssh, current@);
    }
    current
}

/// Turns the parser's verdict on the fully qualified `reference` into the
/// library's result: the URL, or the reference that is not one.
pub fn origin_from_parse(reference: String, outcome: Result<RepoUrl, url::ParseError>) -> (r:
    Result<RepoUrl, Error>)
    ensures
        (match outcome {
            Ok(u) => r == Ok::<RepoUrl, Error>(u),
            Err(_) => r matches Err(Error::InvalidReference { reference: text }) && text
                == reference,
        }),
{
    match outcome {
        Ok(u) => Ok(u),
        Err(_) => Err(Error::InvalidReference { reference }),
    }
}

/// Infers the origin URL that `repo` stands for: `repo` is qualified with
/// `username`, the default host and the scheme that `ssh` selects, and what
/// comes out is parsed as a URL.
pub fn get_origin_url(username: &str, ssh: bool, repo: &str) -> (r: Result<RepoUrl, Error>)
    ensures
        origin_matches(qualified(username@, ssh, repo@), r),
{
    let reference = qualify(username, ssh, repo);
    let outcome = parse_url(reference.as_str());
    origin_from_parse(reference, outcome)
}

} // verus!
