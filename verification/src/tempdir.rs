//! Candidate names for temporary workspaces.
//!
//! A candidate is `/tmp/<prefix>-` followed by eight random alphanumeric
//! characters. The embedding application checks that the candidate does not
//! exist, creates it, and asks for another candidate on a collision;
//! ownership and cleanup of the created directory stay with the caller.

use rand::Rng;
use vstd::prelude::*;
use vstd::string::*;

verus! {

/// True when the character is an ASCII letter or digit.
pub open spec fn is_alnum(c: char) -> bool {
    (48 <= c as u32 <= 57) || (65 <= c as u32 <= 90) || (97 <= c as u32 <= 122)
}

/// Relies on rand's thread-local generator with the Alphanumeric
/// distribution: every sampled byte is an ASCII letter or digit. Nothing
/// more is assumed of the outcome.
#[verifier::external_body]
fn random_suffix() -> (r: String)
    ensures
        r@.len() == 8,
        forall|i: int| 0 <= i < r@.len() ==> is_alnum(#[trigger] r@[i]),
{
    rand::thread_rng().sample_iter(&rand::distributions::Alphanumeric).take(8).map(
        char::from,
    ).collect()
}

/// The next candidate path for a temporary workspace under `/tmp`: the
/// prefix and a dash, followed by eight random alphanumeric characters.
pub fn temp_dir_candidate(prefix: &str) -> (r: String)
    ensures
        r@.len() == prefix@.len() + 14,
        r@.take(prefix@.len() + 6int) == "/tmp/"@ + prefix@ + "-"@,
        forall|i: int| prefix@.len() + 6 <= i < r@.len() ==> is_alnum(#[trigger] r@[i]),
{
    proof {
        reveal_strlit("/tmp/");
        reveal_strlit("-");
    }
    let sfx = random_suffix();
    let r = String::from_str("/tmp/").concat(prefix).concat("-").concat(sfx.as_str());
    proof {
        assert(r@.take(prefix@.len() + 6int) =~= "/tmp/"@ + prefix@ + "-"@);
    }
    r
}

} // verus!
