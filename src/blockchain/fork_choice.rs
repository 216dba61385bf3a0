//! Fork choice: when several valid chains compete, a rule decides which one is best.
//! Each rule ranks chains by a score; a tie keeps the chain compared first.

use vstd::prelude::*;

use super::batched_extrinsics::{digest, hash_header, links, valid_headers, Block, Header};
use super::generate_nonce;
use super::hash_body;

verus! {

/// The proof-of-work threshold of the ordinary blocks, against which work is measured.
pub const THRESHOLD: u64 = u64::MAX / 100;

/// The index that a left-to-right scan of `scores` ends on, when it moves only to a
/// strictly higher score.
pub open spec fn best_index(scores: Seq<int>) -> int
    decreases scores.len(),
{
    if scores.len() <= 1 {
        0
    } else {
        let b = best_index(scores.drop_last());
        if scores.last() > scores[b] {
            scores.len() - 1
        } else {
            b
        }
    }
}

/// A rule that judges which of several chains is best.
///
/// The chains need not start from the same block; they are assumed valid.
pub trait ForkChoice {
    /// The score by which the rule ranks a chain: higher is better.
    spec fn score(chain: Seq<Header>) -> int;

    /// Whether `chain_1` is at least as good as `chain_2`.
    fn first_chain_is_better(chain_1: &[Header], chain_2: &[Header]) -> (r: bool)
        ensures
            r == (Self::score(chain_1@) >= Self::score(chain_2@)),
    ;

    /// The best of `candidate_chains`: scanning left to right, a candidate replaces the
    /// best so far only when it is strictly better.
    fn best_chain<'a>(candidate_chains: &[&'a [Header]]) -> (r: &'a [Header])
        requires
            candidate_chains@.len() > 0,
        ensures
            r@ == candidate_chains@[best_index(
                candidate_chains@.map_values(|c: &[Header]| Self::score(c@)),
            )]@,
    {
        let ghost scores = candidate_chains@.map_values(|c: &[Header]| Self::score(c@));
        let mut best: &'a [Header] = candidate_chains[0];
        let mut b: usize = 0;
        let mut i: usize = 1;
        assert(scores.take(1).drop_last() =~= Seq::<int>::empty());
        while i < candidate_chains.len()
            invariant
                1 <= i <= candidate_chains@.len(),
                scores == candidate_chains@.map_values(|c: &[Header]| Self::score(c@)),
                b == best_index(scores.take(i as int)),
                0 <= b < i,
                best@ == candidate_chains@[b as int]@,
            decreases candidate_chains.len() - i,
        {
            assert(scores.take(i + 1).drop_last() =~= scores.take(i as int));
            let next: &'a [Header] = candidate_chains[i];
            if !Self::first_chain_is_better(best, next) {
                best = next;
                b = i;
            }
            i += 1;
        }
        assert(scores.take(candidate_chains@.len() as int) =~= scores);
        best
    }
}

/// Fork-choice consistency: choosing the best of two chains picks the first exactly when
/// the first is at least as good as the second.
pub proof fn lemma_best_of_two<F: ForkChoice>(chain_1: Seq<Header>, chain_2: Seq<Header>)
    ensures
        seq![chain_1, chain_2][best_index(seq![F::score(chain_1), F::score(chain_2)])] == (if F::score(
            chain_1,
        ) >= F::score(chain_2) {
            chain_1
        } else {
            chain_2
        }),
{
    let scores = seq![F::score(chain_1), F::score(chain_2)];
    assert(scores.drop_last() =~= seq![F::score(chain_1)]);
    assert(best_index(scores.drop_last()) == 0);
    assert(scores.last() == F::score(chain_2));
    assert(best_index(scores) == if F::score(chain_2) > F::score(chain_1) {
        1int
    } else {
        0int
    });
}

/// The best chain is the longest.
pub struct LongestChainRule;

impl ForkChoice for LongestChainRule {
    open spec fn score(chain: Seq<Header>) -> int {
        chain.len() as int
    }

    fn first_chain_is_better(chain_1: &[Header], chain_2: &[Header]) -> (r: bool) {
        chain_1.len() >= chain_2.len()
    }
}

/// `x` held to the range of `i64`.
pub open spec fn clamp_i64(x: int) -> int {
    if x > i64::MAX {
        i64::MAX as int
    } else if x < i64::MIN {
        i64::MIN as int
    } else {
        x
    }
}

/// The work that one header adds: the threshold less its digest, held to the range of
/// `i64`.
pub open spec fn header_work(h: Header) -> int {
    clamp_i64(THRESHOLD - digest(h))
}

/// The accumulated work of `chain`: the work of its headers added up in order, each
/// addition saturating at the bounds of `i64`.
pub open spec fn chain_work(chain: Seq<Header>) -> int
    decreases chain.len(),
{
    if chain.len() == 0 {
        0
    } else {
        clamp_i64(chain_work(chain.drop_last()) + header_work(chain.last()))
    }
}

/// The number of headers of `chain` whose digest is even.
pub open spec fn even_count(chain: Seq<Header>) -> int
    decreases chain.len(),
{
    if chain.len() == 0 {
        0
    } else {
        even_count(chain.drop_last()) + if digest(chain.last()) % 2 == 0 {
            1int
        } else {
            0int
        }
    }
}

proof fn lemma_even_count_bounded(chain: Seq<Header>)
    ensures
        0 <= even_count(chain) <= chain.len(),
    decreases chain.len(),
{
    if chain.len() > 0 {
        lemma_even_count_bounded(chain.drop_last());
    }
}

/// The best chain is the one with the most accumulated work: a header whose digest is
/// further below the threshold took more tries to mine.
pub struct HeaviestChainRule;

impl HeaviestChainRule {
    /// The accumulated work of `chain`.
    pub fn get_work(chain: &[Header]) -> (r: i64)
        ensures
            r == chain_work(chain@),
    {
        let mut work: i64 = 0;
        let mut i: usize = 0;
        while i < chain.len()
            invariant
                0 <= i <= chain.len(),
                work == chain_work(chain@.take(i as int)),
            decreases chain.len() - i,
        {
            assert(chain@.take(i + 1).drop_last() =~= chain@.take(i as int));
            let difference: i128 = THRESHOLD as i128 - hash_header(&chain[i]) as i128;
            let term: i128 = if difference < i64::MIN as i128 {
                i64::MIN as i128
            } else {
                difference
            };
            let total: i128 = work as i128 + term;
            work = if total > i64::MAX as i128 {
                i64::MAX
            } else if total < i64::MIN as i128 {
                i64::MIN
            } else {
                total as i64
            };
            i += 1;
        }
        assert(chain@.take(chain.len() as int) =~= chain@);
        work
    }
}

impl ForkChoice for HeaviestChainRule {
    open spec fn score(chain: Seq<Header>) -> int {
        chain_work(chain)
    }

    fn first_chain_is_better(chain_1: &[Header], chain_2: &[Header]) -> (r: bool) {
        HeaviestChainRule::get_work(chain_1) >= HeaviestChainRule::get_work(chain_2)
    }
}

/// The best chain is the one with the most headers whose digest is even.
pub struct MostBlocksWithEvenHash;

impl MostBlocksWithEvenHash {
    /// The number of headers of `chain` whose digest is even.
    pub fn count_even_hashes(chain: &[Header]) -> (r: usize)
        ensures
            r == even_count(chain@),
    {
        let mut count: usize = 0;
        let mut i: usize = 0;
        while i < chain.len()
            invariant
                0 <= i <= chain.len(),
                count == even_count(chain@.take(i as int)),
            decreases chain.len() - i,
        {
            assert(chain@.take(i + 1).drop_last() =~= chain@.take(i as int));
            proof {
                lemma_even_count_bounded(chain@.take(i as int));
            }
            if hash_header(&chain[i]) % 2 == 0 {
                count += 1;
            }
            i += 1;
        }
        assert(chain@.take(chain.len() as int) =~= chain@);
        count
    }
}

impl ForkChoice for MostBlocksWithEvenHash {
    open spec fn score(chain: Seq<Header>) -> int {
        even_count(chain)
    }

    fn first_chain_is_better(chain_1: &[Header], chain_2: &[Header]) -> (r: bool) {
        MostBlocksWithEvenHash::count_even_hashes(chain_1)
            >= MostBlocksWithEvenHash::count_even_hashes(chain_2)
    }
}

/// `h` with its consensus digest replaced by `nonce`.
pub open spec fn with_nonce(h: Header, nonce: u64) -> Header {
    Header { consensus_digest: nonce, ..h }
}

/// Tries one nonce: when the header's digest with `nonce` is below `threshold`, the
/// nonce is written into the header and `true` returned; otherwise the header is kept.
pub fn try_nonce(header: &mut Header, threshold: u64, nonce: u64) -> (found: bool)
    ensures
        found == (digest(with_nonce(*old(header), nonce)) < threshold),
        found ==> *final(header) == with_nonce(*old(header), nonce),
        !found ==> *final(header) == *old(header),
{
    let candidate = Header { consensus_digest: nonce, ..*header };
    if hash_header(&candidate) < threshold {
        header.consensus_digest = nonce;
        true
    } else {
        false
    }
}

/// Searches up to `max_attempts` random nonces for one that brings the header's digest
/// below `threshold`. When one is found it is written into the header; when none is, the
/// header is kept as it was.
pub fn mine_consensus_digest(header: &mut Header, threshold: u64, max_attempts: u64) -> (found:
    bool)
    ensures
        found ==> digest(*final(header)) < threshold && *final(header) == with_nonce(
            *old(header),
            final(header).consensus_digest,
        ),
        !found ==> *final(header) == *old(header),
        max_attempts == 0 ==> !found,
{
    let mut attempts: u64 = 0;
    while attempts < max_attempts
        invariant
            *header == *old(header),
        decreases max_attempts - attempts,
    {
        let nonce = generate_nonce();
        if try_nonce(header, threshold, nonce) {
            return true;
        }
        attempts += 1;
    }
    false
}

/// Mines the block's header again, to a custom threshold. The body stays as it is.
pub fn mine_extra_hard(block: &mut Block, threshold: u64) -> (found: bool)
    ensures
        final(block).body@ == old(block).body@,
        found ==> digest(final(block).header) < threshold && final(block).header == with_nonce(
            old(block).header,
            final(block).header.consensus_digest,
        ),
        !found ==> final(block).header == old(block).header,
{
    mine_consensus_digest(&mut block.header, threshold, u64::MAX)
}

/// Two chains with a common prefix of three headers from genesis: a longer suffix of
/// three headers mined to easy thresholds, and a shorter suffix of two headers mined to
/// hard thresholds, which therefore most likely carries more work. `None` when mining a
/// header failed.
pub fn create_fork_one_side_longer_other_side_heavier() -> (r: Option<
    (Vec<Header>, Vec<Header>, Vec<Header>),
>)
    ensures
        r matches Some(chains) ==> {
            &&& chains.0@.len() == 3
            &&& chains.1@.len() == 3
            &&& chains.2@.len() == 2
            &&& chains.0@[0] == super::batched_extrinsics::genesis_header()
            &&& valid_headers(chains.0@[0], chains.0@.drop_first())
            &&& valid_headers(chains.0@[2], chains.1@)
            &&& valid_headers(chains.0@[2], chains.2@)
            &&& digest(chains.1@[0]) < u64::MAX / 2
            &&& digest(chains.1@[1]) < u64::MAX / 4
            &&& digest(chains.1@[2]) < u64::MAX / 6
            &&& digest(chains.2@[0]) < u64::MAX / 150
            &&& digest(chains.2@[1]) < u64::MAX / 200
        },
{
    let g = Header::genesis();
    let b1 = g.child(hash_body(&vec![1]), 1);
    let b2 = b1.child(hash_body(&vec![2]), 2);

    let mut b3_longest = b2.child(hash_body(&vec![1, 2]), 3);
    if !mine_consensus_digest(&mut b3_longest, u64::MAX / 2, u64::MAX) {
        return None;
    }
    let mut b4_longest = b3_longest.child(hash_body(&vec![3, 4]), 10);
    if !mine_consensus_digest(&mut b4_longest, u64::MAX / 4, u64::MAX) {
        return None;
    }
    let mut b5_longest = b4_longest.child(hash_body(&vec![5, 6]), 21);
    if !mine_consensus_digest(&mut b5_longest, u64::MAX / 6, u64::MAX) {
        return None;
    }

    let mut b3_heaviest = b2.child(hash_body(&vec![2, 3]), 5);
    if !mine_consensus_digest(&mut b3_heaviest, u64::MAX / 150, u64::MAX) {
        return None;
    }
    let mut b4_heaviest = b3_heaviest.child(hash_body(&vec![4, 5]), 14);
    if !mine_consensus_digest(&mut b4_heaviest, u64::MAX / 200, u64::MAX) {
        return None;
    }

    let r = (vec![g, b1, b2], vec![b3_longest, b4_longest, b5_longest], vec![b3_heaviest, b4_heaviest]);
    proof {
        let full0 = seq![r.0@[0]] + r.0@.drop_first();
        assert(links(full0[0], full0[1]) && links(full0[1], full0[2]));
        let full1 = seq![r.0@[2]] + r.1@;
        assert(links(full1[0], full1[1]) && links(full1[1], full1[2]) && links(full1[2], full1[3]));
        let full2 = seq![r.0@[2]] + r.2@;
        assert(links(full2[0], full2[1]) && links(full2[1], full2[2]));
    }
    Some(r)
}

} // verus!
