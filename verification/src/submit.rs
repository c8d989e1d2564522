//! Classification of submission failures.
//!
//! The oracle and signer loops share one signing identity without
//! coordination, so the destination chain occasionally rejects one of two
//! racing transactions with an account-sequence mismatch.  That race is an
//! accepted design property: the error is suppressed as benign, while
//! every other rejection counts as a real submission failure.

use vstd::prelude::*;

verus! {

/// Whether `needle` occurs contiguously inside `haystack`.
pub open spec fn contains_subseq(haystack: Seq<u8>, needle: Seq<u8>) -> bool {
    exists|i: int|
        0 <= i <= haystack.len() - needle.len() && #[trigger] haystack.subrange(
            i,
            i + needle.len(),
        ) == needle
}

/// Finds whether `needle` occurs contiguously inside `haystack`.
#[verifier::loop_isolation(false)]
pub fn contains_subslice(haystack: &Vec<u8>, needle: &Vec<u8>) -> (r: bool)
    ensures
        r == contains_subseq(haystack@, needle@),
{
    let n = needle.len();
    let h = haystack.len();
    if n > h {
        proof {
            assert(!contains_subseq(haystack@, needle@));
        }
        return false;
    }
    let mut i: usize = 0;
    while i <= h - n
        invariant
            i <= h - n + 1,
            n <= h,
            forall|k: int|
                0 <= k < i ==> #[trigger] haystack@.subrange(k, k + needle@.len()) != needle@,
        decreases h - n + 1 - i,
    {
        let mut j: usize = 0;
        while j < n
            invariant
                j <= n,
                i + n <= h,
                forall|t: int| 0 <= t < j ==> haystack@[i + t] == needle@[t],
            decreases n - j,
        {
            if haystack[i + j] != needle[j] {
                proof {
                    assert(haystack@.subrange(i as int, i + needle@.len())[j as int]
                        == haystack@[i + j]);
                    assert(haystack@.subrange(i as int, i + needle@.len()) != needle@);
                }
                break;
            }
            j += 1;
        }
        if j == n {
            proof {
                assert(haystack@.subrange(i as int, i + needle@.len()) =~= needle@);
            }
            return true;
        }
        proof {
            assert(haystack@.subrange(i as int, i + needle@.len()) != needle@);
        }
        i += 1;
    }
    proof {
        assert(!contains_subseq(haystack@, needle@));
    }
    false
}

/// The error text the destination chain produces when two transactions
/// from one account race: `account sequence mismatch`.
pub open spec fn sequence_race_pattern() -> Seq<u8> {
    seq![
        0x61u8, 0x63u8, 0x63u8, 0x6fu8, 0x75u8, 0x6eu8, 0x74u8, 0x20u8, 0x73u8, 0x65u8, 0x71u8,
        0x75u8, 0x65u8, 0x6eu8, 0x63u8, 0x65u8, 0x20u8, 0x6du8, 0x69u8, 0x73u8, 0x6du8, 0x61u8,
        0x74u8, 0x63u8, 0x68u8,
    ]
}

/// Builds the account-sequence race marker as bytes.
fn sequence_race_pattern_bytes() -> (r: Vec<u8>)
    ensures
        r@ == sequence_race_pattern(),
{
    let mut r: Vec<u8> = Vec::new();
    r.push(0x61u8);
    r.push(0x63u8);
    r.push(0x63u8);
    r.push(0x6fu8);
    r.push(0x75u8);
    r.push(0x6eu8);
    r.push(0x74u8);
    r.push(0x20u8);
    r.push(0x73u8);
    r.push(0x65u8);
    r.push(0x71u8);
    r.push(0x75u8);
    r.push(0x65u8);
    r.push(0x6eu8);
    r.push(0x63u8);
    r.push(0x65u8);
    r.push(0x20u8);
    r.push(0x6du8);
    r.push(0x69u8);
    r.push(0x73u8);
    r.push(0x6du8);
    r.push(0x61u8);
    r.push(0x74u8);
    r.push(0x63u8);
    r.push(0x68u8);
    proof {
        assert(r@ =~= sequence_race_pattern());
    }
    r
}

/// Decides whether a submission error is the benign account-sequence race
/// between the two loops, which is suppressed, rather than a real failure.
pub fn is_benign_submission_error(error_text: &Vec<u8>) -> (r: bool)
    ensures
        r == contains_subseq(error_text@, sequence_race_pattern()),
{
    let pattern = sequence_race_pattern_bytes();
    contains_subslice(error_text, &pattern)
}

} // verus!
