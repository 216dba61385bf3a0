use std::collections::hash_map::DefaultHasher;
use std::hash::{Hash, Hasher};
use toychain::blockchain::batched_extrinsics::{Block, Header};
use toychain::blockchain::fork_choice::{
    mine_consensus_digest, try_nonce, ForkChoice, HeaviestChainRule, LongestChainRule,
    MostBlocksWithEvenHash, THRESHOLD,
};
use toychain::blockchain::{consensus, extrinsic_state, header_chain, rich_state};

fn hash<T: Hash>(t: &T) -> u64 {
    let mut s = DefaultHasher::new();
    t.hash(&mut s);
    s.finish()
}

#[test]
fn five_headers_verify_until_third_height_is_changed() {
    let g = header_chain::Header::genesis();
    let mut chain = vec![g];
    for _ in 0..4 {
        let next = chain.last().unwrap().child();
        chain.push(next);
    }
    assert_eq!(chain.len(), 5);
    assert!(chain[0].verify_sub_chain(&chain[1..]));
    chain[2].height = 7;
    assert!(!chain[0].verify_sub_chain(&chain[1..]));
}

#[test]
fn changed_parent_breaks_the_chain() {
    let mut chain = header_chain::build_valid_chain_length_5();
    assert!(chain[0].verify_sub_chain(&chain[1..]));
    chain[4].parent = chain[4].parent.wrapping_add(1);
    assert!(!chain[0].verify_sub_chain(&chain[1..]));
}

#[test]
fn batched_child_commits_to_body() {
    let g = Block::genesis();
    let b1 = g.child(vec![1, 2, 3, 4, 5]);
    assert_eq!(b1.header.extrinsics_root, hash(&vec![1u64, 2, 3, 4, 5]));
    assert_eq!(b1.header.state, 15);
    assert_eq!(Block::execute_extrinsics(&vec![10, 20, 6]), 36);
    let b2 = b1.child(vec![4]);
    assert_eq!(b2.header.state, 19);
    assert!(g.verify_sub_chain(&[b1.clone(), b2.clone()]));
    let mut wrong = b2.clone();
    wrong.header.state = 20;
    assert!(!g.verify_sub_chain(&[b1, wrong]));
}

#[test]
fn batched_header_chain_checks_links() {
    let g = Header::genesis();
    let h1 = g.child(1, 1);
    let h2 = h1.child(2, 3);
    assert!(g.verify_sub_chain(&[h1, h2]));
    assert!(!g.verify_sub_chain(&[h2]));
    assert!(g.verify_sub_chain(&[]));
}

#[test]
fn best_of_two_agrees_with_comparison_for_each_rule() {
    let g = Header::genesis();
    let a1 = g.child(11, 1);
    let b1 = g.child(12, 2);
    let b2 = b1.child(13, 3);
    let a: &[Header] = &[g, a1];
    let b: &[Header] = &[g, b1, b2];
    let pick = |better: bool| if better { a } else { b };
    assert_eq!(LongestChainRule::best_chain(&[a, b]), pick(LongestChainRule::first_chain_is_better(a, b)));
    assert_eq!(LongestChainRule::best_chain(&[a, b]), b);
    assert_eq!(
        HeaviestChainRule::best_chain(&[a, b]),
        pick(HeaviestChainRule::first_chain_is_better(a, b))
    );
    assert_eq!(
        MostBlocksWithEvenHash::best_chain(&[a, b]),
        pick(MostBlocksWithEvenHash::first_chain_is_better(a, b))
    );
    assert_eq!(LongestChainRule::best_chain(&[a, a]), a);
    assert!(LongestChainRule::first_chain_is_better(a, a));
}

#[test]
fn work_and_even_count_follow_the_digests() {
    let g = Header::genesis();
    let h1 = g.child(5, 5);
    let chain = [g, h1];
    let expected: i64 = chain.iter().fold(0i64, |acc, h| {
        let term = (THRESHOLD as i128 - hash(h) as i128).max(i64::MIN as i128) as i64;
        acc.saturating_add(term)
    });
    assert_eq!(HeaviestChainRule::get_work(&chain), expected);
    let evens = chain.iter().filter(|h| hash(*h) % 2 == 0).count();
    assert_eq!(MostBlocksWithEvenHash::count_even_hashes(&chain), evens);
    assert_eq!(HeaviestChainRule::get_work(&[]), 0);
    let mut heavy = Vec::new();
    let mut prev = g;
    for i in 0..60u64 {
        let mut next = prev.child(i, i);
        assert!(mine_consensus_digest(&mut next, THRESHOLD / 100, u64::MAX));
        heavy.push(next);
        prev = next;
    }
    assert_eq!(HeaviestChainRule::get_work(&heavy), i64::MAX);
}

#[test]
fn nonce_is_kept_only_below_threshold() {
    let g = Header::genesis();
    let mut h = g.child(1, 1);
    let before = h;
    assert!(!try_nonce(&mut h, 0, 7));
    assert_eq!(h, before);
    assert!(try_nonce(&mut h, u64::MAX, 7) || hash(&Header { consensus_digest: 7, ..before }) == u64::MAX);
    assert!(mine_consensus_digest(&mut h, u64::MAX / 4, u64::MAX));
    assert!(hash(&h) < u64::MAX / 4);
    let mut none = before;
    assert!(!mine_consensus_digest(&mut none, 0, 3));
    assert_eq!(none, before);
}

#[test]
fn adder_chain_tracks_state() {
    let g = extrinsic_state::Header::genesis();
    let h1 = g.child(4);
    assert_eq!(h1.parent, hash(&g));
    assert_eq!(h1.state, 4);
    let h2 = h1.child(6);
    assert_eq!(h2.state, 10);
    assert!(g.verify_sub_chain(&[h1, h2]));
    let mut bad = h2;
    bad.state = 11;
    assert!(!g.verify_sub_chain(&[h1, bad]));
    let chain = extrinsic_state::build_valid_chain(4);
    assert_eq!(chain.len(), 4);
    assert!(chain[0].verify_sub_chain(&chain[1..]));
    let invalid = extrinsic_state::build_an_invalid_chain();
    assert!(!invalid[0].verify_sub_chain(&invalid[1..]));
    let (left, right) = extrinsic_state::build_forked_chain();
    assert_eq!(left[0], right[0]);
    assert_ne!(left, right);
    assert!(left[0].verify_sub_chain(&left[1..]));
    assert!(right[0].verify_sub_chain(&right[1..]));
}

#[test]
fn mined_headers_verify_and_fork_by_parity() {
    let g = consensus::Header::genesis();
    let h1 = g.child(3).unwrap();
    assert_eq!(h1.parent, hash(&g));
    assert!(hash(&h1) < consensus::THRESHOLD);
    assert!(g.verify_sub_chain(&[h1]));
    let mut unmined = h1;
    unmined.consensus_digest = unmined.consensus_digest.wrapping_add(1);
    assert_eq!(g.verify_sub_chain(&[unmined]), hash(&unmined) < consensus::THRESHOLD);
    let (prefix, even, odd) = consensus::build_contentious_forked_chain().unwrap();
    assert!(prefix[0].verify_sub_chain(&prefix[1..]));
    assert!(prefix[2].verify_sub_chain_even(&even));
    assert!(!prefix[2].verify_sub_chain_odd(&even));
    assert!(prefix[2].verify_sub_chain_odd(&odd));
    assert!(!prefix[2].verify_sub_chain_even(&odd));
}

#[test]
fn rich_state_runs_sum_and_product() {
    let mut s = rich_state::State { sum: 6, product: 9 };
    let post = rich_state::Block::execute_extrinsics(&mut s, &vec![1, 2, 3]);
    assert_eq!(post, rich_state::State { sum: 12, product: 54 });
    assert_eq!(s, post);
    let pre = rich_state::State { sum: 6, product: 9 };
    let g = rich_state::Block::genesis(&pre);
    let b1 = g.child(&pre, vec![2]);
    assert_eq!(b1.header.state_root, hash(&rich_state::State { sum: 8, product: 18 }));
    assert_eq!(b1.header.extrinsics_root, hash(&vec![2u64]));
    assert!(g.verify_sub_chain(&pre, &[b1.clone()]));
    assert!(!g.verify_sub_chain(&rich_state::State { sum: 0, product: 9 }, &[b1.clone()]));
    assert!(g.verify_sub_chain(&rich_state::State { sum: 0, product: 0 }, &[]));
    let overflowing = rich_state::State { sum: 0, product: u64::MAX };
    assert!(!g.verify_sub_chain(&overflowing, &[g.child(&overflowing, vec![1]), g.child(&overflowing, vec![1])]));
}

#[test]
fn blocks_built_by_child_verify_at_every_length() {
    let g = Block::genesis();
    let mut chain = vec![g.clone()];
    for body in [vec![1u64], vec![2], vec![3]] {
        let next = chain.last().unwrap().child(body);
        assert_eq!(next.header.consensus_digest, 0);
        chain.push(next);
        assert!(g.verify_sub_chain(&chain[1..]));
    }
    assert_eq!(chain[3].header.state, 6);
}

#[test]
fn proof_of_work_nonce_decision_is_exact() {
    let g = consensus::Header::genesis();
    let candidate = consensus::Header { parent: hash(&g), height: 1, extrinsic: 2, state: 2, consensus_digest: 0 };
    for nonce in 0..50u64 {
        let with = consensus::Header { consensus_digest: nonce, ..candidate };
        let expected = if hash(&with) < consensus::THRESHOLD { Some(with) } else { None };
        assert_eq!(consensus::try_nonce(&candidate, nonce), expected);
    }
    assert_eq!(g.mine_child(2, 0), None);
    let mined = g.mine_child(2, u64::MAX).unwrap();
    assert_eq!(mined, consensus::Header { consensus_digest: mined.consensus_digest, ..candidate });
    let mut h = Header::genesis();
    assert!(!mine_consensus_digest(&mut h, u64::MAX, 0));
}

#[test]
fn zero_extrinsic_cancels_a_running_product_overflow() {
    let mut s = rich_state::State { sum: 0, product: 9 };
    let post = rich_state::Block::execute_extrinsics(&mut s, &vec![1u64 << 62, 0]);
    assert_eq!(post, rich_state::State { sum: 1u64 << 62, product: 0 });
    assert_eq!(s, post);
    let g = rich_state::Block::genesis(&rich_state::State { sum: 0, product: 9 });
    let b1 = g.child(&rich_state::State { sum: 0, product: 9 }, vec![1u64 << 62, 0]);
    assert!(g.verify_sub_chain(&rich_state::State { sum: 0, product: 9 }, &[b1]));
}
