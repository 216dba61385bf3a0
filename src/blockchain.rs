//! A hash-linked blockchain, built up in steps: plain linked headers, headers
//! that carry an extrinsic and a running state, proof of work, blocks with batched
//! extrinsics, fork-choice rules, and state kept outside the blocks behind a state root.

use std::collections::hash_map::DefaultHasher;
use rand::Rng;
use std::hash::{BuildHasher, BuildHasherDefault};
use vstd::prelude::*;

pub mod batched_extrinsics;
pub mod consensus;
pub mod extrinsic_state;
pub mod fork_choice;
pub mod header_chain;
pub mod rich_state;

verus! {

/// The digest of a block body with the given extrinsics.
pub uninterp spec fn body_digest(extrinsics: Seq<u64>) -> u64;

/// Relies on std's `BuildHasher::hash_one` with `DefaultHasher`, whose instances made by
/// `default` all hash alike: the digest is a function of the extrinsics, in order.
#[verifier::external_body]
pub(crate) fn hash_body(extrinsics: &Vec<u64>) -> (r: u64)
    ensures
        r == body_digest(extrinsics@),
{
    BuildHasherDefault::<DefaultHasher>::default().hash_one(extrinsics)
}

/// Relies on rand's `thread_rng` and `Rng::gen::<u32>`: a random 32-bit value, widened.
/// Nothing else is known of it. `thread_rng` panics only when the operating system
/// cannot seed the generator.
#[verifier::external_body]
pub(crate) fn generate_nonce() -> (r: u64)
    ensures
        r <= u32::MAX,
{
    rand::thread_rng().gen::<u32>() as u64
}

/// The sum of `xs`.
pub open spec fn seq_sum(xs: Seq<u64>) -> nat
    decreases xs.len(),
{
    if xs.len() == 0 {
        0
    } else {
        (seq_sum(xs.drop_last()) + xs.last()) as nat
    }
}

/// A prefix never sums to more than the whole.
pub proof fn lemma_prefix_sum_le(xs: Seq<u64>, i: int)
    requires
        0 <= i <= xs.len(),
    ensures
        seq_sum(xs.take(i)) <= seq_sum(xs),
    decreases xs.len() - i,
{
    if i < xs.len() {
        lemma_prefix_sum_le(xs, i + 1);
        assert(xs.take(i + 1).drop_last() =~= xs.take(i));
    } else {
        assert(xs.take(i) =~= xs);
    }
}

/// The sum of `xs`, or `None` when it does not fit in a `u64`.
pub(crate) fn checked_sum(xs: &Vec<u64>) -> (r: Option<u64>)
    ensures
        r == (if seq_sum(xs@) <= u64::MAX {
            Some(seq_sum(xs@) as u64)
        } else {
            None::<u64>
        }),
{
    let mut sum: u64 = 0;
    let mut i: usize = 0;
    while i < xs.len()
        invariant
            0 <= i <= xs.len(),
            sum == seq_sum(xs@.take(i as int)),
        decreases xs.len() - i,
    {
        assert(xs@.take(i + 1).drop_last() =~= xs@.take(i as int));
        match sum.checked_add(xs[i]) {
            Some(s) => sum = s,
            None => {
                proof {
                    lemma_prefix_sum_le(xs@, i + 1);
                }
                return None;
            },
        }
        i += 1;
    }
    assert(xs@.take(xs.len() as int) =~= xs@);
    Some(sum)
}

} // verus!
