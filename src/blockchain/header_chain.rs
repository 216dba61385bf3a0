//! The simplest chain: headers linked by the digest of their parent.

use std::collections::hash_map::DefaultHasher;
use std::hash::{BuildHasher, BuildHasherDefault};
use vstd::prelude::*;

verus! {

/// A header that links to its parent and counts its height. The other fields are not
/// used yet.
#[derive(Debug, PartialEq, Eq, Clone, Copy, Hash)]
pub struct Header {
    pub parent: u64,
    pub height: u64,
    pub extrinsics_root: (),
    pub state_root: (),
    pub consensus_digest: (),
}

/// The digest of a header with the given parent digest and height.
pub uninterp spec fn plain_header_digest(parent: u64, height: u64) -> u64;

/// Relies on std's `BuildHasher::hash_one` with `DefaultHasher`, whose instances made by
/// `default` all hash alike: the digest is a function of the header's fields, and the
/// unit fields add nothing to it.
#[verifier::external_body]
fn hash_header(h: &Header) -> (r: u64)
    ensures
        r == plain_header_digest(h.parent, h.height),
{
    BuildHasherDefault::<DefaultHasher>::default().hash_one(h)
}

/// The digest of `h`.
pub open spec fn digest(h: Header) -> u64 {
    plain_header_digest(h.parent, h.height)
}

/// The genesis header.
pub open spec fn genesis_header() -> Header {
    Header { parent: 0, height: 0, extrinsics_root: (), state_root: (), consensus_digest: () }
}

/// The child that `child` makes of `h`.
pub open spec fn child_of(h: Header) -> Header {
    Header {
        parent: digest(h),
        height: (h.height + 1) as u64,
        extrinsics_root: (),
        state_root: (),
        consensus_digest: (),
    }
}

/// Whether `child` follows `parent`: one higher, and pointing at its digest.
pub open spec fn links(parent: Header, child: Header) -> bool {
    child.height == parent.height + 1 && child.parent == digest(parent)
}

/// Whether each header of `chain` follows the one before it, the first following
/// `anchor`.
pub open spec fn valid_chain(anchor: Header, chain: Seq<Header>) -> bool {
    let full = seq![anchor] + chain;
    forall|i: int| 0 <= i < chain.len() ==> #[trigger] links(full[i], full[i + 1])
}

/// Whether `chain` is a genesis header followed by headers each made by `child` from
/// the one before.
pub open spec fn built_from_genesis(chain: Seq<Header>) -> bool {
    &&& chain.len() > 0
    &&& chain[0] == genesis_header()
    &&& forall|i: int|
        0 <= i < chain.len() - 1 ==> #[trigger] chain[i].height < u64::MAX && chain[i + 1]
            == child_of(chain[i])
}

impl Header {
    /// The genesis header: no parent and height 0.
    pub fn genesis() -> (r: Self)
        ensures
            r == genesis_header(),
    {
        Header { parent: 0, height: 0, extrinsics_root: (), state_root: (), consensus_digest: () }
    }

    /// The child of this header.
    pub fn child(&self) -> (r: Self)
        requires
            self.height < u64::MAX,
        ensures
            r == child_of(*self),
            links(*self, r),
    {
        Header {
            parent: hash_header(self),
            height: self.height + 1,
            extrinsics_root: (),
            state_root: (),
            consensus_digest: (),
        }
    }

    /// Whether `chain` links, header by header, to this one. An empty chain does.
    pub fn verify_sub_chain(&self, chain: &[Header]) -> (r: bool)
        ensures
            r == valid_chain(*self, chain@),
    {
        let ghost full = seq![*self] + chain@;
        let mut prev: Header = *self;
        let mut i: usize = 0;
        while i < chain.len()
            invariant
                0 <= i <= chain.len(),
                full == seq![*self] + chain@,
                prev == full[i as int],
                forall|j: int| 0 <= j < i ==> #[trigger] links(full[j], full[j + 1]),
            decreases chain.len() - i,
        {
            let header = chain[i];
            assert(full[i + 1] == header);
            if prev.height == u64::MAX || header.height != prev.height + 1 {
                assert(!links(full[i as int], full[i + 1]));
                return false;
            }
            if header.parent != hash_header(&prev) {
                assert(!links(full[i as int], full[i + 1]));
                return false;
            }
            prev = header;
            i += 1;
        }
        true
    }
}

/// A valid chain of five headers, genesis first.
pub fn build_valid_chain_length_5() -> (r: Vec<Header>)
    ensures
        r@.len() == 5,
        built_from_genesis(r@),
        valid_chain(r@[0], r@.drop_first()),
{
    let mut chain: Vec<Header> = Vec::new();
    let mut prev = Header::genesis();
    let mut i: usize = 0;
    while i < 5
        invariant
            0 <= i <= 5,
            chain@.len() == i,
            prev.height == i,
            i == 0 ==> prev == genesis_header(),
            i > 0 ==> prev == child_of(chain@[i - 1]),
            chain@.len() > 0 ==> chain@[0] == genesis_header(),
            forall|j: int|
                0 <= j < i - 1 ==> #[trigger] chain@[j].height < u64::MAX && chain@[j + 1]
                    == child_of(chain@[j]),
            forall|j: int| 0 <= j < i ==> #[trigger] chain@[j].height == j,
        decreases 5 - i,
    {
        let next = prev.child();
        chain.push(prev);
        prev = next;
        i += 1;
    }
    proof {
        lemma_built_chain_is_valid(chain@);
    }
    chain
}

/// Three headers from genesis that do not form a valid chain: the third is a second
/// child of genesis rather than a child of the second.
pub fn build_an_invalid_chain() -> (r: Vec<Header>)
    ensures
        r@.len() == 3,
        r@[0] == genesis_header(),
        !valid_chain(r@[0], r@.drop_first()),
{
    let g = Header::genesis();
    let b1 = g.child();
    let b2_prime = g.child();
    let r = vec![g, b1, b2_prime];
    proof {
        let full = seq![r@[0]] + r@.drop_first();
        assert(!links(full[1], full[2]));
    }
    r
}

/// Chain linkage: a chain built from genesis by `child` alone verifies from its first
/// header.
pub proof fn lemma_built_chain_is_valid(chain: Seq<Header>)
    requires
        built_from_genesis(chain),
    ensures
        valid_chain(chain[0], chain.drop_first()),
{
    let rest = chain.drop_first();
    let full = seq![chain[0]] + rest;
    assert(full =~= chain);
    assert forall|i: int| 0 <= i < rest.len() implies #[trigger] links(full[i], full[i + 1]) by {
        assert(chain[i].height < u64::MAX && chain[i + 1] == child_of(chain[i]));
    }
}

/// Tampering with the height of any one header of a valid chain makes it invalid.
pub proof fn lemma_tampered_height_is_invalid(
    anchor: Header,
    chain: Seq<Header>,
    i: int,
    height: u64,
)
    requires
        valid_chain(anchor, chain),
        0 <= i < chain.len(),
        height != chain[i].height,
    ensures
        !valid_chain(anchor, chain.update(i, Header { height, ..chain[i] })),
{
    let tampered = chain.update(i, Header { height, ..chain[i] });
    let full = seq![anchor] + chain;
    let tfull = seq![anchor] + tampered;
    assert(links(full[i], full[i + 1]));
    assert(tfull[i] == full[i]);
    assert(!links(tfull[i], tfull[i + 1]));
}

/// Tampering with the parent digest of any one header of a valid chain makes it invalid.
pub proof fn lemma_tampered_parent_is_invalid(
    anchor: Header,
    chain: Seq<Header>,
    i: int,
    parent: u64,
)
    requires
        valid_chain(anchor, chain),
        0 <= i < chain.len(),
        parent != chain[i].parent,
    ensures
        !valid_chain(anchor, chain.update(i, Header { parent, ..chain[i] })),
{
    let tampered = chain.update(i, Header { parent, ..chain[i] });
    let full = seq![anchor] + chain;
    let tfull = seq![anchor] + tampered;
    assert(links(full[i], full[i + 1]));
    assert(tfull[i] == full[i]);
    assert(!links(tfull[i], tfull[i + 1]));
}

} // verus!
