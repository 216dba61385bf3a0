//! Headers that track state: each header carries one extrinsic and the state after it.
//! The chain works as an adder: the state starts at zero and each block adds its
//! extrinsic.

use std::collections::hash_map::DefaultHasher;
use std::hash::{BuildHasher, BuildHasherDefault};
use vstd::prelude::*;

verus! {

/// A header with one extrinsic and the state after it.
#[derive(Debug, PartialEq, Eq, Clone, Copy, Hash)]
pub struct Header {
    pub parent: u64,
    pub height: u64,
    pub extrinsic: u64,
    pub state: u64,
    pub consensus_digest: (),
}

/// The digest of a header with the given fields.
pub uninterp spec fn adder_header_digest(parent: u64, height: u64, extrinsic: u64, state: u64) -> u64;

/// Relies on std's `BuildHasher::hash_one` with `DefaultHasher`, whose instances made by
/// `default` all hash alike: the digest is a function of the header's fields, and the
/// unit field adds nothing to it.
#[verifier::external_body]
fn hash_header(h: &Header) -> (r: u64)
    ensures
        r == adder_header_digest(h.parent, h.height, h.extrinsic, h.state),
{
    BuildHasherDefault::<DefaultHasher>::default().hash_one(h)
}

/// The digest of `h`.
pub open spec fn digest(h: Header) -> u64 {
    adder_header_digest(h.parent, h.height, h.extrinsic, h.state)
}

/// The genesis header: everything zero.
pub open spec fn genesis_header() -> Header {
    Header { parent: 0, height: 0, extrinsic: 0, state: 0, consensus_digest: () }
}

/// Whether `child` follows `parent`: one higher, pointing at its digest, and holding the
/// parent's state plus its own extrinsic.
pub open spec fn links(parent: Header, child: Header) -> bool {
    &&& child.height == parent.height + 1
    &&& child.parent == digest(parent)
    &&& child.state == parent.state + child.extrinsic
}

/// Whether each header of `chain` follows the one before it, the first following
/// `anchor`.
pub open spec fn valid_chain(anchor: Header, chain: Seq<Header>) -> bool {
    let full = seq![anchor] + chain;
    forall|i: int| 0 <= i < chain.len() ==> #[trigger] links(full[i], full[i + 1])
}

/// Whether `chain` starts at genesis and verifies from there.
pub open spec fn valid_from_genesis(chain: Seq<Header>) -> bool {
    chain.len() > 0 && chain[0] == genesis_header() && valid_chain(chain[0], chain.drop_first())
}

impl Header {
    /// The genesis header.
    pub fn genesis() -> (r: Self)
        ensures
            r == genesis_header(),
    {
        Header { parent: 0, height: 0, extrinsic: 0, state: 0, consensus_digest: () }
    }

    /// The child of this header that holds `extrinsic`.
    pub fn child(&self, extrinsic: u64) -> (r: Self)
        requires
            self.height < u64::MAX,
            self.state + extrinsic <= u64::MAX,
        ensures
            r.extrinsic == extrinsic,
            links(*self, r),
    {
        Header {
            parent: hash_header(self),
            height: self.height + 1,
            extrinsic,
            state: self.state + extrinsic,
            consensus_digest: (),
        }
    }

    /// Whether `chain` follows, header by header, from this one. An empty chain does.
    pub fn verify_sub_chain(&self, chain: &[Header]) -> (r: bool)
        ensures
            r == valid_chain(*self, chain@),
    {
        let ghost full = seq![*self] + chain@;
        let mut prev: Header = *self;
        let mut i: usize = 0;
        while i < chain.len()
            invariant
                0 <= i <= chain.len(),
                full == seq![*self] + chain@,
                prev == full[i as int],
                forall|j: int| 0 <= j < i ==> #[trigger] links(full[j], full[j + 1]),
            decreases chain.len() - i,
        {
            let header = chain[i];
            assert(full[i + 1] == header);
            if prev.height == u64::MAX || header.height != prev.height + 1 || header.parent
                != hash_header(&prev) || prev.state as u128 + header.extrinsic as u128
                != header.state as u128 {
                assert(!links(full[i as int], full[i + 1]));
                return false;
            }
            prev = header;
            i += 1;
        }
        true
    }
}

/// A valid chain of `n` headers from genesis, each adding 1 to the state.
pub fn build_valid_chain(n: u64) -> (r: Vec<Header>)
    ensures
        r@.len() == n,
        n > 0 ==> valid_from_genesis(r@),
{
    let mut chain: Vec<Header> = Vec::new();
    if n == 0 {
        return chain;
    }
    let mut prev = Header::genesis();
    chain.push(prev);
    let mut i: u64 = 1;
    while i < n
        invariant
            1 <= i <= n,
            chain@.len() == i,
            chain@[0] == genesis_header(),
            prev == chain@[i - 1],
            prev.height == i - 1,
            prev.state == i - 1,
            forall|j: int|
                0 <= j < i - 1 ==> #[trigger] links(chain@[j], chain@[j + 1]),
        decreases n - i,
    {
        let next = prev.child(1);
        chain.push(next);
        prev = next;
        i += 1;
    }
    proof {
        let full = seq![chain@[0]] + chain@.drop_first();
        assert(full =~= chain@);
    }
    chain
}

/// Three headers from genesis, built with `genesis` and `child` alone, that do not form
/// a valid chain: the third is a second child of genesis.
pub fn build_an_invalid_chain() -> (r: Vec<Header>)
    ensures
        r@.len() == 3,
        r@[0] == genesis_header(),
        !valid_chain(r@[0], r@.drop_first()),
{
    let g = Header::genesis();
    let b1 = g.child(1);
    let b2_prime = g.child(2);
    let r = vec![g, b1, b2_prime];
    proof {
        let full = seq![r@[0]] + r@.drop_first();
        assert(!links(full[1], full[2]));
    }
    r
}

/// Two different valid chains from the same genesis header: they share the first three
/// headers and then fork.
pub fn build_forked_chain() -> (r: (Vec<Header>, Vec<Header>))
    ensures
        valid_from_genesis(r.0@),
        valid_from_genesis(r.1@),
        r.0@[0] == r.1@[0],
        r.0@ != r.1@,
{
    let g = Header::genesis();
    let b1 = g.child(1);
    let b2 = b1.child(1);
    let b3 = b2.child(1);
    let b3_prime = b2.child(2);
    let r = (vec![g, b1, b2, b3], vec![g, b1, b2, b3_prime]);
    proof {
        let full0 = seq![r.0@[0]] + r.0@.drop_first();
        assert(full0 =~= r.0@);
        let full1 = seq![r.1@[0]] + r.1@.drop_first();
        assert(full1 =~= r.1@);
        assert(r.0@[3] != r.1@[3]);
    }
    r
}

} // verus!
