//! Blocks: a header that commits to a batch of extrinsics, and the extrinsics
//! themselves. The state is the running sum of every extrinsic so far, stored in the
//! header.

use std::collections::hash_map::DefaultHasher;
use std::hash::{BuildHasher, BuildHasherDefault};
use vstd::prelude::*;

use super::{body_digest, checked_sum, hash_body, seq_sum};

verus! {

/// A header that commits to its block's extrinsics by digest and carries the state
/// after them.
#[derive(Clone, Copy, Debug, PartialEq, Eq, Structural, Hash)]
pub struct Header {
    pub parent: u64,
    pub height: u64,
    pub extrinsics_root: u64,
    pub state: u64,
    pub consensus_digest: u64,
}

/// The digest of a header with the given fields.
pub uninterp spec fn batched_header_digest(
    parent: u64,
    height: u64,
    extrinsics_root: u64,
    state: u64,
    consensus_digest: u64,
) -> u64;

/// Relies on std's `BuildHasher::hash_one` with `DefaultHasher`, whose instances made by
/// `default` all hash alike: the digest is a function of the header's fields.
#[verifier::external_body]
pub(crate) fn hash_header(h: &Header) -> (r: u64)
    ensures
        r == batched_header_digest(h.parent, h.height, h.extrinsics_root, h.state, h.consensus_digest),
{
    BuildHasherDefault::<DefaultHasher>::default().hash_one(h)
}

/// The digest of `h`.
pub open spec fn digest(h: Header) -> u64 {
    batched_header_digest(h.parent, h.height, h.extrinsics_root, h.state, h.consensus_digest)
}

/// The genesis header: everything zero.
pub open spec fn genesis_header() -> Header {
    Header { parent: 0, height: 0, extrinsics_root: 0, state: 0, consensus_digest: 0 }
}

/// Whether `child` follows `parent`: one higher, and pointing at its digest. A header
/// alone cannot show whether its state is right.
pub open spec fn links(parent: Header, child: Header) -> bool {
    child.height == parent.height + 1 && child.parent == digest(parent)
}

/// Whether each header of `chain` follows the one before it, the first following
/// `anchor`.
pub open spec fn valid_headers(anchor: Header, chain: Seq<Header>) -> bool {
    let full = seq![anchor] + chain;
    forall|i: int| 0 <= i < chain.len() ==> #[trigger] links(full[i], full[i + 1])
}

/// Whether `child` is a valid block on top of `parent`: its header follows, commits to
/// its body, and holds the parent's state plus the sum of the body.
pub open spec fn block_follows(parent: Block, child: Block) -> bool {
    &&& links(parent.header, child.header)
    &&& child.header.extrinsics_root == body_digest(child.body@)
    &&& child.header.state == parent.header.state + seq_sum(child.body@)
}

/// Whether each block of `chain` is valid on top of the one before it, the first on top
/// of `anchor`.
pub open spec fn valid_blocks(anchor: Block, chain: Seq<Block>) -> bool {
    let full = seq![anchor] + chain;
    forall|i: int| 0 <= i < chain.len() ==> #[trigger] block_follows(full[i], full[i + 1])
}

impl Header {
    /// The genesis header.
    pub fn genesis() -> (r: Self)
        ensures
            r == genesis_header(),
    {
        Header { parent: 0, height: 0, extrinsics_root: 0, state: 0, consensus_digest: 0 }
    }

    /// A child of this header with the given extrinsics root and state.
    pub fn child(&self, extrinsics_root: u64, state: u64) -> (r: Self)
        requires
            self.height < u64::MAX,
        ensures
            r == (Header {
                parent: digest(*self),
                height: (self.height + 1) as u64,
                extrinsics_root,
                state,
                consensus_digest: 0,
            }),
            links(*self, r),
    {
        Header {
            parent: hash_header(self),
            height: self.height + 1,
            extrinsics_root,
            state,
            consensus_digest: 0,
        }
    }

    /// Whether `child` follows this header.
    pub fn verify_child(&self, child: &Header) -> (r: bool)
        ensures
            r == links(*self, *child),
    {
        self.height < u64::MAX && child.height == self.height + 1 && child.parent == hash_header(
            self,
        )
    }

    /// Whether `chain` links, header by header, to this one. An empty chain does.
    pub fn verify_sub_chain(&self, chain: &[Header]) -> (r: bool)
        ensures
            r == valid_headers(*self, chain@),
    {
        let ghost full = seq![*self] + chain@;
        let mut prev: Header = *self;
        let mut i: usize = 0;
        while i < chain.len()
            invariant
                0 <= i <= chain.len(),
                full == seq![*self] + chain@,
                prev == full[i as int],
                forall|j: int| 0 <= j < i ==> #[trigger] links(full[j], full[j + 1]),
            decreases chain.len() - i,
        {
            let header = chain[i];
            assert(full[i + 1] == header);
            if !prev.verify_child(&header) {
                return false;
            }
            prev = header;
            i += 1;
        }
        true
    }
}

/// A complete block: a header and the extrinsics it commits to.
#[derive(Debug, PartialEq, Eq, Hash, Clone)]
pub struct Block {
    pub header: Header,
    pub body: Vec<u64>,
}

impl Block {
    /// The genesis block: the genesis header and no extrinsics.
    pub fn genesis() -> (r: Self)
        ensures
            r.header == genesis_header(),
            r.body@ == Seq::<u64>::empty(),
    {
        Block { header: Header::genesis(), body: Vec::new() }
    }

    /// The state change of `extrinsics`: their sum.
    pub fn execute_extrinsics(extrinsics: &Vec<u64>) -> (r: u64)
        requires
            seq_sum(extrinsics@) <= u64::MAX,
        ensures
            r == seq_sum(extrinsics@),
    {
        match checked_sum(extrinsics) {
            Some(s) => s,
            None => 0,
        }
    }

    /// A valid child block holding `extrinsics`.
    pub fn child(&self, extrinsics: Vec<u64>) -> (r: Self)
        requires
            self.header.height < u64::MAX,
            self.header.state + seq_sum(extrinsics@) <= u64::MAX,
        ensures
            r.body@ == extrinsics@,
            r.header == (Header {
                parent: digest(self.header),
                height: (self.header.height + 1) as u64,
                extrinsics_root: body_digest(extrinsics@),
                state: (self.header.state + seq_sum(extrinsics@)) as u64,
                consensus_digest: 0,
            }),
            block_follows(*self, r),
    {
        let sum = Block::execute_extrinsics(&extrinsics);
        let header = self.header.child(hash_body(&extrinsics), self.header.state + sum);
        Block { header, body: extrinsics }
    }

    /// Whether `chain` is valid, block by block, on top of this block. An empty chain is.
    pub fn verify_sub_chain(&self, chain: &[Block]) -> (r: bool)
        ensures
            r == valid_blocks(*self, chain@),
    {
        let ghost full = seq![*self] + chain@;
        let mut prev: &Block = self;
        let mut i: usize = 0;
        while i < chain.len()
            invariant
                0 <= i <= chain.len(),
                full == seq![*self] + chain@,
                *prev == full[i as int],
                forall|j: int| 0 <= j < i ==> #[trigger] block_follows(full[j], full[j + 1]),
            decreases chain.len() - i,
        {
            let block = &chain[i];
            assert(full[i + 1] == *block);
            if !prev.header.verify_child(&block.header) {
                assert(!block_follows(full[i as int], full[i + 1]));
                return false;
            }
            if hash_body(&block.body) != block.header.extrinsics_root {
                assert(!block_follows(full[i as int], full[i + 1]));
                return false;
            }
            match checked_sum(&block.body) {
                Some(sum) => {
                    if prev.header.state as u128 + sum as u128 != block.header.state as u128 {
                        assert(!block_follows(full[i as int], full[i + 1]));
                        return false;
                    }
                },
                None => {
                    assert(!block_follows(full[i as int], full[i + 1]));
                    return false;
                },
            }
            prev = block;
            i += 1;
        }
        true
    }
}

/// The block that `child` makes of `parent` with `extrinsics`.
pub open spec fn child_block_of(parent: Block, extrinsics: Seq<u64>) -> (Header, Seq<u64>) {
    (
        Header {
            parent: digest(parent.header),
            height: (parent.header.height + 1) as u64,
            extrinsics_root: body_digest(extrinsics),
            state: (parent.header.state + seq_sum(extrinsics)) as u64,
            consensus_digest: 0,
        },
        extrinsics,
    )
}

/// Whether `chain` is the genesis block followed by blocks each made by `child` from the
/// one before, without overflow.
pub open spec fn built_from_genesis(chain: Seq<Block>) -> bool {
    &&& chain.len() > 0
    &&& chain[0].header == genesis_header()
    &&& chain[0].body@ == Seq::<u64>::empty()
    &&& forall|i: int|
        0 <= i < chain.len() - 1 ==> {
            &&& #[trigger] chain[i].header.height < u64::MAX
            &&& chain[i].header.state + seq_sum(chain[i + 1].body@) <= u64::MAX
            &&& (chain[i + 1].header, chain[i + 1].body@) == child_block_of(
                chain[i],
                chain[i + 1].body@,
            )
        }
}

/// Chain linkage for blocks: a chain built from the genesis block by `child` alone
/// verifies from its first block.
pub proof fn lemma_built_blocks_are_valid(chain: Seq<Block>)
    requires
        built_from_genesis(chain),
    ensures
        valid_blocks(chain[0], chain.drop_first()),
{
    let rest = chain.drop_first();
    let full = seq![chain[0]] + rest;
    assert(full =~= chain);
    assert forall|i: int| 0 <= i < rest.len() implies #[trigger] block_follows(full[i], full[i + 1]) by {
        assert(chain[i].header.height < u64::MAX);
    }
}

/// A child block of `parent` whose header is a valid child header but whose block is not
/// valid: the header declares state 0 for extrinsics that add up to 6.
pub fn build_invalid_child_block_with_valid_header(parent: &Header) -> (r: Block)
    requires
        parent.height < u64::MAX,
    ensures
        links(*parent, r.header),
        forall|b: Block| b.header == *parent ==> !#[trigger] block_follows(b, r),
{
    let committed: Vec<u64> = vec![1, 2, 3, 4];
    let header = parent.child(hash_body(&committed), 0);
    let body: Vec<u64> = vec![1, 2, 3];
    let r = Block { header, body };
    proof {
        reveal_with_fuel(seq_sum, 4);
        assert(seq_sum(r.body@) == 6);
    }
    r
}

} // verus!
