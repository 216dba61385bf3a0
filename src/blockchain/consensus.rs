//! Proof of work: a header is only valid when its digest is below a threshold, which an
//! author reaches by trying nonces in the consensus digest. A contentious fork adds a
//! political rule on top: past the fork height, one side accepts only even states and
//! the other only odd ones.

use std::collections::hash_map::DefaultHasher;
use std::hash::{BuildHasher, BuildHasherDefault};
use vstd::prelude::*;

use super::generate_nonce;

verus! {

/// The digest below which a header is valid: about one nonce in a hundred qualifies.
pub const THRESHOLD: u64 = u64::MAX / 100;

/// The height after which the two sides of the contentious fork disagree.
pub const FORK_HEIGHT: u64 = 2;

/// A header with one extrinsic, the state after it, and a proof-of-work nonce.
#[derive(Debug, PartialEq, Eq, Structural, Clone, Copy, Hash)]
pub struct Header {
    pub parent: u64,
    pub height: u64,
    pub extrinsic: u64,
    pub state: u64,
    pub consensus_digest: u64,
}

/// The digest of a header with the given fields.
pub uninterp spec fn pow_header_digest(
    parent: u64,
    height: u64,
    extrinsic: u64,
    state: u64,
    consensus_digest: u64,
) -> u64;

/// Relies on std's `BuildHasher::hash_one` with `DefaultHasher`, whose instances made by
/// `default` all hash alike: the digest is a function of the header's fields.
#[verifier::external_body]
fn hash_header(h: &Header) -> (r: u64)
    ensures
        r == pow_header_digest(h.parent, h.height, h.extrinsic, h.state, h.consensus_digest),
{
    BuildHasherDefault::<DefaultHasher>::default().hash_one(h)
}

/// The digest of `h`.
pub open spec fn digest(h: Header) -> u64 {
    pow_header_digest(h.parent, h.height, h.extrinsic, h.state, h.consensus_digest)
}

/// The genesis header: everything zero.
pub open spec fn genesis_header() -> Header {
    Header { parent: 0, height: 0, extrinsic: 0, state: 0, consensus_digest: 0 }
}

/// Whether `child` follows `parent`: one higher, pointing at its digest, holding the
/// parent's state plus its own extrinsic, and with a digest below the threshold.
pub open spec fn links(parent: Header, child: Header) -> bool {
    &&& child.height == parent.height + 1
    &&& child.parent == digest(parent)
    &&& child.state == parent.state + child.extrinsic
    &&& digest(child) < THRESHOLD
}

/// Whether `h` meets one side's rule of the contentious fork: past the fork height, an
/// even state when `even`, an odd one otherwise.
pub open spec fn keeps_parity(h: Header, even: bool) -> bool {
    h.height <= FORK_HEIGHT || (h.state % 2 == 0) == even
}

/// Whether each header of `chain` follows the one before it, the first following
/// `anchor`, and, when `parity` is given, keeps that parity.
pub open spec fn valid_chain_under(anchor: Header, chain: Seq<Header>, parity: Option<bool>) -> bool {
    let full = seq![anchor] + chain;
    forall|i: int| 0 <= i < chain.len() ==> #[trigger] follows_under(full[i], full[i + 1], parity)
}

/// Whether `child` follows `parent` and, when `parity` is given, keeps that parity.
pub open spec fn follows_under(parent: Header, child: Header, parity: Option<bool>) -> bool {
    links(parent, child) && match parity {
        Some(even) => keeps_parity(child, even),
        None => true,
    }
}

/// `h` with its consensus digest replaced by `nonce`.
pub open spec fn with_nonce(h: Header, nonce: u64) -> Header {
    Header { consensus_digest: nonce, ..h }
}

/// The child of `parent` holding `extrinsic`, before any nonce is tried.
pub open spec fn unmined_child(parent: Header, extrinsic: u64) -> Header {
    Header {
        parent: digest(parent),
        height: (parent.height + 1) as u64,
        extrinsic,
        state: (parent.state + extrinsic) as u64,
        consensus_digest: 0,
    }
}

/// Tries one nonce on `candidate`: the candidate with that nonce when its digest is then
/// below the threshold, `None` otherwise.
pub fn try_nonce(candidate: &Header, nonce: u64) -> (r: Option<Header>)
    ensures
        r == (if digest(with_nonce(*candidate, nonce)) < THRESHOLD {
            Some(with_nonce(*candidate, nonce))
        } else {
            None::<Header>
        }),
{
    let mined = Header { consensus_digest: nonce, ..*candidate };
    if hash_header(&mined) < THRESHOLD {
        Some(mined)
    } else {
        None
    }
}

impl Header {
    /// The genesis header.
    pub fn genesis() -> (r: Self)
        ensures
            r == genesis_header(),
    {
        Header { parent: 0, height: 0, extrinsic: 0, state: 0, consensus_digest: 0 }
    }

    /// A valid child of this header holding `extrinsic`, mined by trying up to
    /// `max_attempts` random nonces; `None` when every attempt failed.
    pub fn mine_child(&self, extrinsic: u64, max_attempts: u64) -> (r: Option<Self>)
        requires
            self.height < u64::MAX,
            self.state + extrinsic <= u64::MAX,
        ensures
            r matches Some(h) ==> (h == with_nonce(unmined_child(*self, extrinsic), h.consensus_digest)
                && digest(h) < THRESHOLD && links(*self, h)),
            max_attempts == 0 ==> r is None,
    {
        let candidate = Header {
            parent: hash_header(self),
            height: self.height + 1,
            extrinsic,
            state: self.state + extrinsic,
            consensus_digest: 0,
        };
        let mut attempts: u64 = 0;
        while attempts < max_attempts
            invariant
                self.height < u64::MAX,
                self.state + extrinsic <= u64::MAX,
                candidate == unmined_child(*self, extrinsic),
            decreases max_attempts - attempts,
        {
            let nonce = generate_nonce();
            if let Some(h) = try_nonce(&candidate, nonce) {
                return Some(h);
            }
            attempts += 1;
        }
        None
    }

    /// A valid child of this header holding `extrinsic`, mined by trying random nonces
    /// until one works or `u64::MAX` attempts have failed; `None` in the latter case.
    pub fn child(&self, extrinsic: u64) -> (r: Option<Self>)
        requires
            self.height < u64::MAX,
            self.state + extrinsic <= u64::MAX,
        ensures
            r matches Some(h) ==> (h == with_nonce(unmined_child(*self, extrinsic), h.consensus_digest)
                && digest(h) < THRESHOLD && links(*self, h)),
    {
        self.mine_child(extrinsic, u64::MAX)
    }

    fn verify_sub_chain_under(&self, chain: &[Header], parity: Option<bool>) -> (r: bool)
        ensures
            r == valid_chain_under(*self, chain@, parity),
    {
        let ghost full = seq![*self] + chain@;
        let mut prev: Header = *self;
        let mut i: usize = 0;
        while i < chain.len()
            invariant
                0 <= i <= chain.len(),
                full == seq![*self] + chain@,
                prev == full[i as int],
                forall|j: int| 0 <= j < i ==> #[trigger] follows_under(full[j], full[j + 1], parity),
            decreases chain.len() - i,
        {
            let header = chain[i];
            assert(full[i + 1] == header);
            if prev.height == u64::MAX || header.height != prev.height + 1 || header.parent
                != hash_header(&prev) || prev.state as u128 + header.extrinsic as u128
                != header.state as u128 || hash_header(&header) >= THRESHOLD {
                assert(!follows_under(full[i as int], full[i + 1], parity));
                return false;
            }
            match parity {
                Some(even) => {
                    if header.height > FORK_HEIGHT && (header.state % 2 == 0) != even {
                        assert(!follows_under(full[i as int], full[i + 1], parity));
                        return false;
                    }
                },
                None => {},
            }
            assert(follows_under(full[i as int], full[i + 1], parity));
            prev = header;
            i += 1;
        }
        true
    }

    /// Whether `chain` follows, header by header, from this one, each header with enough
    /// work. An empty chain does.
    pub fn verify_sub_chain(&self, chain: &[Header]) -> (r: bool)
        ensures
            r == valid_chain_under(*self, chain@, None),
    {
        self.verify_sub_chain_under(chain, None)
    }

    /// As `verify_sub_chain`, and every header past the fork height has an even state.
    pub fn verify_sub_chain_even(&self, chain: &[Header]) -> (r: bool)
        ensures
            r == valid_chain_under(*self, chain@, Some(true)),
    {
        self.verify_sub_chain_under(chain, Some(true))
    }

    /// As `verify_sub_chain`, and every header past the fork height has an odd state.
    pub fn verify_sub_chain_odd(&self, chain: &[Header]) -> (r: bool)
        ensures
            r == valid_chain_under(*self, chain@, Some(false)),
    {
        self.verify_sub_chain_under(chain, Some(false))
    }
}

/// A contentious fork: a common prefix of three headers from genesis, a suffix that only
/// the even side accepts and a suffix that only the odd side accepts. `None` when mining
/// a header failed.
pub fn build_contentious_forked_chain() -> (r: Option<(Vec<Header>, Vec<Header>, Vec<Header>)>)
    ensures
        r matches Some(chains) ==> {
            &&& chains.0@.len() == 3
            &&& chains.0@[0] == genesis_header()
            &&& valid_chain_under(chains.0@[0], chains.0@.drop_first(), None)
            &&& valid_chain_under(chains.0@[2], chains.1@, Some(true))
            &&& !valid_chain_under(chains.0@[2], chains.1@, Some(false))
            &&& valid_chain_under(chains.0@[2], chains.2@, Some(false))
            &&& !valid_chain_under(chains.0@[2], chains.2@, Some(true))
        },
{
    let g = Header::genesis();
    let b1 = g.child(1)?;
    let b2 = b1.child(1)?;
    let even_3 = b2.child(2)?;
    let even_4 = even_3.child(2)?;
    let odd_3 = b2.child(1)?;
    let odd_4 = odd_3.child(2)?;
    let prefix = vec![g, b1, b2];
    let even_side = vec![even_3, even_4];
    let odd_side = vec![odd_3, odd_4];
    proof {
        let full = seq![prefix@[0]] + prefix@.drop_first();
        assert(follows_under(full[0], full[1], None) && follows_under(full[1], full[2], None));
        let even_full = seq![prefix@[2]] + even_side@;
        assert(follows_under(even_full[0], even_full[1], Some(true)));
        assert(follows_under(even_full[1], even_full[2], Some(true)));
        assert(!follows_under(even_full[0], even_full[1], Some(false)));
        let odd_full = seq![prefix@[2]] + odd_side@;
        assert(follows_under(odd_full[0], odd_full[1], Some(false)));
        assert(follows_under(odd_full[1], odd_full[2], Some(false)));
        assert(!follows_under(odd_full[0], odd_full[1], Some(true)));
    }
    Some((prefix, even_side, odd_side))
}

} // verus!
