//! Locating the runner binary next to the fully resolved requester binary
//! and verifying its content against the digest pinned at build time.
//!
//! Following symbolic links (not hard links) to the canonical directory and
//! pinning the runner's content hash closes the attack where a hard link to
//! the requester is placed in a directory holding an attacker-controlled
//! "runner": only the binary shipped alongside the genuine requester
//! verifies.

use crate::error::ElevError;
use vstd::prelude::*;
use vstd::string::{StrSliceExecFns, StringExecFns};

verus! {

/// The fixed file name of the runner binary.
pub open spec fn runner_file_name() -> Seq<char> {
    "elev-run.exe"@
}

pub open spec fn is_sep(c: char) -> bool {
    c == '\\' || c == '/'
}

/// The position of the last path separator of `p`, or `-1` when `p` has
/// none.
pub open spec fn last_sep(p: Seq<char>) -> int
    decreases p.len(),
{
    if p.len() == 0 {
        -1
    } else if is_sep(p[p.len() - 1]) {
        p.len() - 1
    } else {
        last_sep(p.drop_last())
    }
}

/// The expected runner path: the directory part of the resolved requester
/// path, then the fixed runner file name.
pub open spec fn sibling_spec(p: Seq<char>) -> Seq<char> {
    p.take(last_sep(p) + 1) + runner_file_name()
}

proof fn lemma_last_sep_bounds(p: Seq<char>)
    ensures
        -1 <= last_sep(p) < p.len(),
        last_sep(p) >= 0 ==> is_sep(p[last_sep(p)]),
        forall|j: int| last_sep(p) < j < p.len() ==> !is_sep(#[trigger] p[j]),
    decreases p.len(),
{
    if p.len() == 0 {
    } else if is_sep(p[p.len() - 1]) {
    } else {
        lemma_last_sep_bounds(p.drop_last());
        assert(forall|j: int| 0 <= j < p.len() - 1 ==> p.drop_last()[j] == p[j]);
    }
}

proof fn lemma_last_sep_at(p: Seq<char>, i: int)
    requires
        0 <= i < p.len(),
        is_sep(p[i]),
        forall|j: int| i < j < p.len() ==> !is_sep(#[trigger] p[j]),
    ensures
        last_sep(p) == i,
    decreases p.len(),
{
    if i == p.len() - 1 {
    } else {
        assert(forall|j: int| 0 <= j < p.len() - 1 ==> p.drop_last()[j] == p[j]);
        lemma_last_sep_at(p.drop_last(), i);
    }
}

proof fn lemma_last_sep_none(p: Seq<char>)
    requires
        forall|j: int| 0 <= j < p.len() ==> !is_sep(#[trigger] p[j]),
    ensures
        last_sep(p) == -1,
    decreases p.len(),
{
    if p.len() > 0 {
        assert(forall|j: int| 0 <= j < p.len() - 1 ==> p.drop_last()[j] == p[j]);
        lemma_last_sep_none(p.drop_last());
    }
}

/// Joins the directory of the resolved requester path with the fixed runner
/// file name, as the requester does before checking that file.
pub fn runner_sibling(resolved: &String) -> (r: String)
    ensures
        r@ == sibling_spec(resolved@),
{
    let s = resolved.as_str();
    let n = s.unicode_len();
    let mut cut: usize = n;
    loop
        invariant
            cut <= n,
            n == resolved@.len(),
            s@ == resolved@,
            forall|j: int| cut <= j < n ==> !is_sep(#[trigger] resolved@[j]),
        ensures
            cut == last_sep(resolved@) + 1,
        decreases cut,
    {
        if cut == 0 {
            proof {
                lemma_last_sep_none(resolved@);
            }
            break ;
        }
        let c = s.get_char(cut - 1);
        if c == '\\' || c == '/' {
            proof {
                lemma_last_sep_at(resolved@, cut - 1);
            }
            break ;
        }
        cut = cut - 1;
    }
    let dir = s.substring_char(0, cut);
    let r = String::from_str(dir).concat("elev-run.exe");
    proof {
        assert(dir@ == resolved@.take(last_sep(resolved@) + 1));
    }
    r
}

/// One observation the requester makes about its own path while resolving
/// symbolic links: either the filesystem entry is a link to `target`, or it
/// is the real file.
pub enum LinkStep {
    Link { target: String },
    NotLink,
}

/// Where resolution stands after one observation.
pub enum Resolution {
    /// The entry was a link; resolution continues at its target.
    Continue { current: String },
    /// The entry is the real file; resolution ends here.
    Resolved { path: String },
}

/// The decision the resolution loop takes after each filesystem
/// observation: a link replaces the current path by its target, anything
/// else ends the chain at the current path.
pub fn resolve_step(current: String, step: LinkStep) -> (r: Resolution)
    ensures
        match step {
            LinkStep::Link { target } => r == (Resolution::Continue { current: target }),
            LinkStep::NotLink => r == (Resolution::Resolved { path: current }),
        },
{
    match step {
        LinkStep::Link { target } => Resolution::Continue { current: target },
        LinkStep::NotLink => Resolution::Resolved { path: current },
    }
}

/// Where a chain of link targets, followed from `start`, ends.
pub open spec fn follow_spec(start: Seq<char>, targets: Seq<Seq<char>>) -> Seq<char>
    decreases targets.len(),
{
    if targets.len() == 0 {
        start
    } else {
        follow_spec(targets[0], targets.drop_first())
    }
}

/// Symlink chains: following any finite chain of `n` nested links ends at
/// the final target, and the runner is looked up in that file's directory,
/// not in the directory of the start or of any intermediate link.
pub proof fn lemma_symlink_chain(start: Seq<char>, targets: Seq<Seq<char>>)
    ensures
        follow_spec(start, targets) == if targets.len() == 0 {
            start
        } else {
            targets.last()
        },
        sibling_spec(follow_spec(start, targets)) == if targets.len() == 0 {
            sibling_spec(start)
        } else {
            sibling_spec(targets.last())
        },
    decreases targets.len(),
{
    if targets.len() > 0 {
        lemma_symlink_chain(targets[0], targets.drop_first());
        if targets.len() > 1 {
            assert(targets.drop_first().last() == targets.last());
        }
    }
}

/// The existence gate on the expected runner path: a missing or
/// non-regular file fails with the distinguished "not found" condition
/// naming the attempted path.
pub fn runner_presence(runner: String, is_file: bool) -> (r: Result<String, ElevError>)
    ensures
        is_file ==> r == Ok::<String, ElevError>(runner),
        !is_file ==> r == Err::<String, ElevError>(ElevError::RunnerNotFound { tried: runner }),
{
    if is_file {
        Ok(runner)
    } else {
        Err(ElevError::RunnerNotFound { tried: runner })
    }
}

/// What `sha2::Sha256::digest` returns for given input bytes; a function of
/// the input alone.
pub uninterp spec fn sha256_of(data: Seq<u8>) -> Seq<u8>;

/// Relies on sha2::Sha256::digest: the SHA-256 digest of the input, 32
/// bytes, depending on the input bytes alone.
#[verifier::external_body]
fn sha256(data: &Vec<u8>) -> (r: Vec<u8>)
    ensures
        r@ == sha256_of(data@),
        r@.len() == 32,
{
    <sha2::Sha256 as sha2::Digest>::digest(data).to_vec()
}

/// The lowercase hexadecimal digit of a nibble.
pub open spec fn hex_digit(n: u8) -> char {
    if n == 0 {
        '0'
    } else if n == 1 {
        '1'
    } else if n == 2 {
        '2'
    } else if n == 3 {
        '3'
    } else if n == 4 {
        '4'
    } else if n == 5 {
        '5'
    } else if n == 6 {
        '6'
    } else if n == 7 {
        '7'
    } else if n == 8 {
        '8'
    } else if n == 9 {
        '9'
    } else if n == 10 {
        'a'
    } else if n == 11 {
        'b'
    } else if n == 12 {
        'c'
    } else if n == 13 {
        'd'
    } else if n == 14 {
        'e'
    } else {
        'f'
    }
}

/// Lowercase hexadecimal of a byte string, two digits per byte, high
/// nibble first.
pub open spec fn hex_of(data: Seq<u8>) -> Seq<char>
    decreases data.len(),
{
    if data.len() == 0 {
        Seq::empty()
    } else {
        seq![hex_digit(data[0] / 16), hex_digit(data[0] % 16)] + hex_of(data.drop_first())
    }
}

/// Relies on hex::encode: lowercase hexadecimal, two digits per byte, high
/// nibble first.
#[verifier::external_body]
fn hex_encode(data: &Vec<u8>) -> (r: String)
    ensures
        r@ == hex_of(data@),
{
    hex::encode(data)
}

/// The runner's content verifies against an expected digest string.
pub open spec fn digest_matches(expected: Seq<char>, contents: Seq<u8>) -> bool {
    expected == hex_of(sha256_of(contents))
}

/// The integrity gate run before anything is elevated: with no pinned
/// digest it refuses outright; with one, it accepts the runner path exactly
/// when the hex-encoded SHA-256 digest of the runner's contents equals the
/// pinned string, case-sensitively.
pub fn verify_runner(path: String, pinned: Option<String>, contents: &Vec<u8>) -> (r: Result<
    String,
    ElevError,
>)
    ensures
        pinned is None ==> r == Err::<String, ElevError>(ElevError::MissingPinnedDigest),
        pinned matches Some(expected) && digest_matches(expected@, contents@) ==> r == Ok::<
            String,
            ElevError,
        >(path),
        pinned matches Some(expected) && !digest_matches(expected@, contents@) ==> r == Err::<
            String,
            ElevError,
        >(ElevError::WrongRunnerVersion { path }),
{
    match pinned {
        None => Err(ElevError::MissingPinnedDigest),
        Some(expected) => {
            let actual = hex_encode(&sha256(contents));
            if expected == actual {
                Ok(path)
            } else {
                Err(ElevError::WrongRunnerVersion { path })
            }
        },
    }
}

} // verus!
