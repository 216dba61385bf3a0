//! State kept outside the blocks. The state is now a running sum and a running product
//! of the extrinsics, and a header only commits to it by the digest of the state, its
//! state root. Checking a block therefore needs the state before it.

use std::collections::hash_map::DefaultHasher;
use std::hash::{BuildHasher, BuildHasherDefault};
use vstd::prelude::*;

use super::{body_digest, checked_sum, hash_body, seq_sum};

verus! {

/// The chain's state: the sum and the product of every extrinsic so far, starting from a
/// genesis state.
#[derive(Debug, PartialEq, Eq, Structural, Clone, Copy, Hash)]
pub struct State {
    pub sum: u64,
    pub product: u64,
}

/// A header that commits to its block's extrinsics and to the state after them, both
/// by digest.
#[derive(Debug, PartialEq, Eq, Structural, Clone, Copy, Hash)]
pub struct Header {
    pub parent: u64,
    pub height: u64,
    pub extrinsics_root: u64,
    pub state_root: u64,
    pub consensus_digest: u64,
}

/// The digest of a state with the given sum and product.
pub uninterp spec fn state_digest(sum: u64, product: u64) -> u64;

/// The digest of a header with the given fields.
pub uninterp spec fn rich_header_digest(
    parent: u64,
    height: u64,
    extrinsics_root: u64,
    state_root: u64,
    consensus_digest: u64,
) -> u64;

/// Relies on std's `BuildHasher::hash_one` with `DefaultHasher`, whose instances made by
/// `default` all hash alike: the digest is a function of the state's two fields.
#[verifier::external_body]
fn hash_state(s: &State) -> (r: u64)
    ensures
        r == state_digest(s.sum, s.product),
{
    BuildHasherDefault::<DefaultHasher>::default().hash_one(s)
}

/// Relies on std's `BuildHasher::hash_one` with `DefaultHasher`, whose instances made by
/// `default` all hash alike: the digest is a function of the header's fields.
#[verifier::external_body]
fn hash_header(h: &Header) -> (r: u64)
    ensures
        r == rich_header_digest(
            h.parent,
            h.height,
            h.extrinsics_root,
            h.state_root,
            h.consensus_digest,
        ),
{
    BuildHasherDefault::<DefaultHasher>::default().hash_one(h)
}

/// The digest of `h`.
pub open spec fn digest(h: Header) -> u64 {
    rich_header_digest(h.parent, h.height, h.extrinsics_root, h.state_root, h.consensus_digest)
}

/// The root that commits to `s`.
pub open spec fn root_of(s: State) -> u64 {
    state_digest(s.sum, s.product)
}

/// The product of `xs`.
pub open spec fn seq_product(xs: Seq<u64>) -> nat
    decreases xs.len(),
{
    if xs.len() == 0 {
        1
    } else {
        (seq_product(xs.drop_last()) * xs.last()) as nat
    }
}

/// The state after executing `xs` on `pre`: each extrinsic is added to the sum and
/// multiplies the product. `None` when the final sum or product does not fit in a `u64`.
pub open spec fn run_extrinsics(pre: State, xs: Seq<u64>) -> Option<State> {
    let sum = pre.sum + seq_sum(xs);
    let product = pre.product * seq_product(xs);
    if sum <= u64::MAX && product <= u64::MAX {
        Some(State { sum: sum as u64, product: product as u64 })
    } else {
        None
    }
}

/// Whether `child` follows `parent`: one higher, and pointing at its digest.
pub open spec fn links(parent: Header, child: Header) -> bool {
    child.height == parent.height + 1 && child.parent == digest(parent)
}

/// Whether each header of `chain` follows the one before it, the first following
/// `anchor`.
pub open spec fn valid_headers(anchor: Header, chain: Seq<Header>) -> bool {
    let full = seq![anchor] + chain;
    forall|i: int| 0 <= i < chain.len() ==> #[trigger] links(full[i], full[i + 1])
}

/// The state after executing the bodies of `blocks` in order on `pre`.
pub open spec fn chain_state(pre: State, blocks: Seq<Block>) -> Option<State>
    decreases blocks.len(),
{
    if blocks.len() == 0 {
        Some(pre)
    } else {
        match chain_state(pre, blocks.drop_last()) {
            Some(s) => run_extrinsics(s, blocks.last().body@),
            None => None,
        }
    }
}

/// Whether the state root of block `i` of `blocks` commits to the state after the
/// bodies up to and including it, executed on `pre`.
pub open spec fn commits_state(pre: State, blocks: Seq<Block>, i: int) -> bool {
    match chain_state(pre, blocks.take(i + 1)) {
        Some(s) => root_of(s) == blocks[i].header.state_root,
        None => false,
    }
}

/// Whether `child`'s header follows `parent`'s and commits to `child`'s body.
pub open spec fn block_links(parent: Block, child: Block) -> bool {
    links(parent.header, child.header) && child.header.extrinsics_root == body_digest(
        child.body@,
    )
}

/// Whether `chain` is valid on top of `anchor`, whose body runs on `pre`: every block
/// links to the one before and commits to its body, and every state root, the anchor's
/// included, commits to the state reached there. An empty chain is valid.
pub open spec fn valid_blocks(anchor: Block, pre: State, chain: Seq<Block>) -> bool {
    let full = seq![anchor] + chain;
    chain.len() == 0 || {
        &&& forall|i: int| 0 <= i < full.len() ==> #[trigger] commits_state(pre, full, i)
        &&& forall|i: int| 0 <= i < chain.len() ==> #[trigger] block_links(full[i], full[i + 1])
    }
}

proof fn lemma_zero_factor(xs: Seq<u64>, k: int)
    requires
        0 <= k < xs.len(),
        xs[k] == 0,
    ensures
        seq_product(xs) == 0,
    decreases xs.len(),
{
    let init = seq_product(xs.drop_last());
    if k < xs.len() - 1 {
        assert(xs.drop_last()[k] == xs[k]);
        lemma_zero_factor(xs.drop_last(), k);
        assert(init * xs.last() == 0) by (nonlinear_arith)
            requires
                init == 0,
        ;
    } else {
        assert(init * xs.last() == 0) by (nonlinear_arith)
            requires
                xs.last() == 0,
        ;
    }
}

proof fn lemma_prefix_product_le(xs: Seq<u64>, i: int)
    requires
        0 <= i <= xs.len(),
        forall|j: int| 0 <= j < xs.len() ==> xs[j] >= 1,
    ensures
        seq_product(xs.take(i)) <= seq_product(xs),
    decreases xs.len() - i,
{
    if i < xs.len() {
        lemma_prefix_product_le(xs, i + 1);
        assert(xs.take(i + 1).drop_last() =~= xs.take(i));
        let p = seq_product(xs.take(i));
        let x = xs[i] as int;
        assert(p <= p * x) by (nonlinear_arith)
            requires
                x >= 1,
                p >= 0,
        ;
    } else {
        assert(xs.take(i) =~= xs);
    }
}

/// `pre` times the product of `xs`, or `None` when it does not fit in a `u64`.
fn product_after(pre: u64, xs: &Vec<u64>) -> (r: Option<u64>)
    ensures
        r == (if pre * seq_product(xs@) <= u64::MAX {
            Some((pre * seq_product(xs@)) as u64)
        } else {
            None::<u64>
        }),
{
    // A zero factor makes the product zero, whatever the factors before it.
    if pre == 0 {
        assert(pre * seq_product(xs@) == 0);
        return Some(0);
    }
    let mut k: usize = 0;
    while k < xs.len()
        invariant
            0 <= k <= xs.len(),
            forall|j: int| 0 <= j < k ==> xs@[j] >= 1,
        decreases xs.len() - k,
    {
        if xs[k] == 0 {
            proof {
                lemma_zero_factor(xs@, k as int);
                let whole = seq_product(xs@);
                assert(pre * whole == 0) by (nonlinear_arith)
                    requires
                        whole == 0,
                ;
            }
            return Some(0);
        }
        k += 1;
    }
    let mut p: u64 = pre;
    let mut i: usize = 0;
    assert(xs@.take(0) =~= Seq::<u64>::empty());
    assert(seq_product(xs@.take(0)) == 1);
    while i < xs.len()
        invariant
            0 <= i <= xs.len(),
            pre >= 1,
            forall|j: int| 0 <= j < xs.len() ==> xs@[j] >= 1,
            p == pre * seq_product(xs@.take(i as int)),
        decreases xs.len() - i,
    {
        assert(xs@.take(i + 1).drop_last() =~= xs@.take(i as int));
        let x = xs[i];
        let ghost before = seq_product(xs@.take(i as int));
        assert(pre * (before * x) == (pre * before) * x) by (nonlinear_arith);
        match p.checked_mul(x) {
            Some(q) => p = q,
            None => {
                proof {
                    lemma_prefix_product_le(xs@, i + 1);
                    let a = seq_product(xs@.take(i + 1));
                    let b = seq_product(xs@);
                    assert(pre * a <= pre * b) by (nonlinear_arith)
                        requires
                            a <= b,
                            pre >= 1,
                    ;
                }
                return None;
            },
        }
        i += 1;
    }
    assert(xs@.take(xs.len() as int) =~= xs@);
    Some(p)
}

/// The state after executing `xs` on `pre`, or `None` when the final sum or product
/// does not fit in a `u64`.
fn try_execute(pre: State, xs: &Vec<u64>) -> (r: Option<State>)
    ensures
        r == run_extrinsics(pre, xs@),
{
    let total = match checked_sum(xs) {
        Some(t) => t,
        None => return None,
    };
    let sum = match pre.sum.checked_add(total) {
        Some(s) => s,
        None => return None,
    };
    let product = match product_after(pre.product, xs) {
        Some(p) => p,
        None => return None,
    };
    Some(State { sum, product })
}

impl Header {
    /// A genesis header committing to the genesis state by `genesis_state_root`.
    pub fn genesis(genesis_state_root: u64) -> (r: Self)
        ensures
            r == (Header {
                parent: 0,
                height: 0,
                extrinsics_root: 0,
                state_root: genesis_state_root,
                consensus_digest: 0,
            }),
    {
        Header {
            parent: 0,
            height: 0,
            extrinsics_root: 0,
            state_root: genesis_state_root,
            consensus_digest: 0,
        }
    }

    /// A child of this header with the given extrinsics root and state root.
    pub fn child(&self, extrinsics_root: u64, state_root: u64) -> (r: Self)
        requires
            self.height < u64::MAX,
        ensures
            r == (Header {
                parent: digest(*self),
                height: (self.height + 1) as u64,
                extrinsics_root,
                state_root,
                consensus_digest: 0,
            }),
            links(*self, r),
    {
        Header {
            parent: hash_header(self),
            height: self.height + 1,
            extrinsics_root,
            state_root,
            consensus_digest: 0,
        }
    }

    /// Whether `child` follows this header.
    pub fn verify_child(&self, child: &Header) -> (r: bool)
        ensures
            r == links(*self, *child),
    {
        self.height < u64::MAX && child.height == self.height + 1 && child.parent == hash_header(
            self,
        )
    }

    /// Whether `chain` links, header by header, to this one. An empty chain does.
    pub fn verify_sub_chain(&self, chain: &[Header]) -> (r: bool)
        ensures
            r == valid_headers(*self, chain@),
    {
        let ghost full = seq![*self] + chain@;
        let mut prev: Header = *self;
        let mut i: usize = 0;
        while i < chain.len()
            invariant
                0 <= i <= chain.len(),
                full == seq![*self] + chain@,
                prev == full[i as int],
                forall|j: int| 0 <= j < i ==> #[trigger] links(full[j], full[j + 1]),
            decreases chain.len() - i,
        {
            let header = chain[i];
            assert(full[i + 1] == header);
            if !prev.verify_child(&header) {
                return false;
            }
            prev = header;
            i += 1;
        }
        true
    }
}

/// A complete block: a header and the extrinsics it commits to.
#[derive(Debug, PartialEq, Eq, Clone, Hash)]
pub struct Block {
    pub header: Header,
    pub body: Vec<u64>,
}

impl Block {
    /// Executes `extrinsics` on `pre_state`, which is left holding the new state; the new
    /// state is also returned.
    pub fn execute_extrinsics(pre_state: &mut State, extrinsics: &Vec<u64>) -> (r: State)
        requires
            run_extrinsics(*old(pre_state), extrinsics@) is Some,
        ensures
            run_extrinsics(*old(pre_state), extrinsics@) == Some(r),
            *final(pre_state) == r,
    {
        match try_execute(*pre_state, extrinsics) {
            Some(s) => {
                *pre_state = s;
                s
            },
            None => *pre_state,
        }
    }

    /// The genesis block: a genesis header committing to `genesis_state`, and no
    /// extrinsics.
    pub fn genesis(genesis_state: &State) -> (r: Self)
        ensures
            r.header == (Header {
                parent: 0,
                height: 0,
                extrinsics_root: 0,
                state_root: root_of(*genesis_state),
                consensus_digest: 0,
            }),
            r.body@ == Seq::<u64>::empty(),
    {
        Block { header: Header::genesis(hash_state(genesis_state)), body: Vec::new() }
    }

    /// A valid child block holding `extrinsics`, executed on `pre_state`, the state after
    /// this block.
    pub fn child(&self, pre_state: &State, extrinsics: Vec<u64>) -> (r: Self)
        requires
            self.header.height < u64::MAX,
            run_extrinsics(*pre_state, extrinsics@) is Some,
        ensures
            r.body@ == extrinsics@,
            r.header == (Header {
                parent: digest(self.header),
                height: (self.header.height + 1) as u64,
                extrinsics_root: body_digest(extrinsics@),
                state_root: root_of(run_extrinsics(*pre_state, extrinsics@).unwrap()),
                consensus_digest: 0,
            }),
            block_links(*self, r),
    {
        let mut state = *pre_state;
        let post = Block::execute_extrinsics(&mut state, &extrinsics);
        let header = self.header.child(hash_body(&extrinsics), hash_state(&post));
        Block { header, body: extrinsics }
    }

    /// Whether `chain` is valid on top of this block, given `pre_state`, the state that
    /// this block's own extrinsics run on. An empty chain is valid.
    pub fn verify_sub_chain(&self, pre_state: &State, chain: &[Block]) -> (r: bool)
        ensures
            r == valid_blocks(*self, *pre_state, chain@),
    {
        if chain.len() == 0 {
            return true;
        }
        let ghost full = seq![*self] + chain@;
        assert(full.take(1).drop_last() =~= Seq::<Block>::empty());
        assert(full.take(1).last() == *self);
        assert(chain_state(*pre_state, full.take(1).drop_last()) == Some(*pre_state));
        assert(chain_state(*pre_state, full.take(1)) == run_extrinsics(*pre_state, self.body@));
        let mut state = match try_execute(*pre_state, &self.body) {
            Some(s) => s,
            None => {
                assert(!commits_state(*pre_state, full, 0));
                return false;
            },
        };
        if hash_state(&state) != self.header.state_root {
            assert(!commits_state(*pre_state, full, 0));
            return false;
        }
        let mut prev: &Block = self;
        let mut i: usize = 0;
        while i < chain.len()
            invariant
                0 <= i <= chain.len(),
                full == seq![*self] + chain@,
                *prev == full[i as int],
                chain_state(*pre_state, full.take(i + 1)) == Some(state),
                forall|j: int| 0 <= j <= i ==> #[trigger] commits_state(*pre_state, full, j),
                forall|j: int| 0 <= j < i ==> #[trigger] block_links(full[j], full[j + 1]),
            decreases chain.len() - i,
        {
            let block = &chain[i];
            assert(full[i + 1] == *block);
            assert(full.take(i + 2).drop_last() =~= full.take(i + 1));
            assert(full.take(i + 2).last() == *block);
            if !prev.header.verify_child(&block.header) || hash_body(&block.body)
                != block.header.extrinsics_root {
                assert(!block_links(full[i as int], full[i + 1]));
                return false;
            }
            state = match try_execute(state, &block.body) {
                Some(s) => s,
                None => {
                    assert(!commits_state(*pre_state, full, i + 1));
                    return false;
                },
            };
            if hash_state(&state) != block.header.state_root {
                assert(!commits_state(*pre_state, full, i + 1));
                return false;
            }
            prev = block;
            i += 1;
        }
        true
    }
}

/// A child block of `parent` whose header is a valid child header but whose block is
/// not valid: the header commits to the extrinsics 1 to 5 and the state after them, the
/// body holds only 1, 2 and 3.
pub fn build_invalid_child_block_with_valid_header(parent: &Header, pre_state: &State) -> (r:
    Block)
    requires
        parent.height < u64::MAX,
        run_extrinsics(*pre_state, seq![1u64, 2, 3, 4, 5]) is Some,
    ensures
        links(*parent, r.header),
        r.header.extrinsics_root == body_digest(seq![1u64, 2, 3, 4, 5]),
        r.header.state_root == root_of(run_extrinsics(*pre_state, seq![1u64, 2, 3, 4, 5]).unwrap()),
        r.body@ == seq![1u64, 2, 3],
{
    let committed: Vec<u64> = vec![1, 2, 3, 4, 5];
    assert(committed@ =~= seq![1u64, 2, 3, 4, 5]);
    let mut state = *pre_state;
    let post = Block::execute_extrinsics(&mut state, &committed);
    let header = parent.child(hash_body(&committed), hash_state(&post));
    let body: Vec<u64> = vec![1, 2, 3];
    assert(body@ =~= seq![1u64, 2, 3]);
    Block { header, body }
}

} // verus!
