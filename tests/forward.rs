use chain_forward::buffer::ReconciliationBuffer;
use chain_forward::chain::{chain_result, Action, ChainState, MsgClass, MsgKind, Outgoing, PROOF_ONLY_HEIGHT};
use chain_forward::wire::{decode_sync_request, encode_sync_request};

fn block(tag: u8) -> Vec<u8> {
    vec![tag, tag, tag]
}

fn plain_block(height: u64, proof_height: Option<u64>, proof: Vec<u8>, tag: u8) -> MsgClass {
    MsgClass::Block { height, hash_ok: true, proof_height, proof, block: block(tag) }
}

fn entry_of(chain: &ChainState, h: u64) -> Option<(Option<Vec<u8>>, Option<Vec<u8>>, bool)> {
    chain.pending(h).map(|e| (e.proof.clone(), e.block.clone(), e.verified))
}

fn sync_heights_of(action: &Action, origin: u32) -> Vec<u64> {
    match action {
        Action::Send(out) => out
            .iter()
            .map(|o| match o {
                Outgoing::SyncRequest { origin: to, payload } => {
                    assert_eq!(*to, origin);
                    assert_eq!(payload.len(), 8);
                    decode_sync_request(payload).unwrap()
                }
                _ => panic!("not a sync request"),
            })
            .collect(),
        _ => panic!("not a send"),
    }
}

#[test]
fn status_starts_wave_up_to_announced_height() {
    let mut chain = ChainState::new(10);
    let action = chain_result(&mut chain, 4, MsgClass::Status { height: 50 });
    assert_eq!(chain.get_max_height(), 50);
    assert!(chain.is_syncing());
    let heights = sync_heights_of(&action, 4);
    assert_eq!(heights, (11..=50).collect::<Vec<u64>>());
    assert_eq!(heights.len(), 40);
}

#[test]
fn status_wave_is_capped_at_batch() {
    let mut chain = ChainState::new(10);
    let action = chain_result(&mut chain, 1, MsgClass::Status { height: 1000 });
    let heights = sync_heights_of(&action, 1);
    assert_eq!(heights.len(), 100);
    assert_eq!(heights[0], 11);
    assert_eq!(heights[99], 110);
    assert!(heights.iter().all(|h| *h > 10));
}

#[test]
fn status_while_syncing_ends_wave_and_next_one_asks_again() {
    let mut chain = ChainState::new(10);
    let _ = chain_result(&mut chain, 1, MsgClass::Status { height: 20 });
    assert!(chain.is_syncing());
    let again = chain_result(&mut chain, 2, MsgClass::Status { height: 30 });
    assert!(sync_heights_of(&again, 2).is_empty());
    assert!(!chain.is_syncing());
    assert_eq!(chain.get_max_height(), 30);
    let retry = chain_result(&mut chain, 2, MsgClass::Status { height: 30 });
    assert_eq!(sync_heights_of(&retry, 2), (11..=30).collect::<Vec<u64>>());
    assert!(chain.is_syncing());
    chain.confirm(30);
    let closed = chain_result(&mut chain, 2, MsgClass::Status { height: 30 });
    assert!(sync_heights_of(&closed, 2).is_empty());
    assert!(!chain.is_syncing());
    let closed_again = chain_result(&mut chain, 2, MsgClass::Status { height: 30 });
    assert!(sync_heights_of(&closed_again, 2).is_empty());
    assert!(!chain.is_syncing());
    let next = chain_result(&mut chain, 2, MsgClass::Status { height: 33 });
    assert_eq!(sync_heights_of(&next, 2), vec![31, 32, 33]);
}

#[test]
fn sync_continues_past_first_batch() {
    let mut chain = ChainState::new(10);
    let first = chain_result(&mut chain, 1, MsgClass::Status { height: 1000 });
    assert_eq!(sync_heights_of(&first, 1), (11..=110).collect::<Vec<u64>>());
    chain.confirm(110);
    let ends = chain_result(&mut chain, 1, MsgClass::Status { height: 1000 });
    assert!(sync_heights_of(&ends, 1).is_empty());
    let second = chain_result(&mut chain, 1, MsgClass::Status { height: 1000 });
    assert_eq!(sync_heights_of(&second, 1), (111..=210).collect::<Vec<u64>>());
    assert!(chain.is_syncing());
}

#[test]
fn status_lower_than_known_keeps_max() {
    let mut chain = ChainState::new(10);
    let _ = chain_result(&mut chain, 1, MsgClass::Status { height: 12 });
    let _ = chain_result(&mut chain, 1, MsgClass::Status { height: 11 });
    assert_eq!(chain.get_max_height(), 12);
}

#[test]
fn block_then_proof_block_promotes() {
    let mut chain = ChainState::new(10);
    let a = chain_result(&mut chain, 1, plain_block(15, None, vec![], 7));
    assert!(matches!(a, Action::Drop));
    assert_eq!(entry_of(&chain, 15), Some((None, Some(block(7)), false)));
    let b = chain_result(&mut chain, 1, MsgClass::BlockWithProof { height: 15, proof: vec![9, 9], block: block(7) });
    assert!(matches!(b, Action::Wake(15)));
    assert_eq!(entry_of(&chain, 15), Some((Some(vec![9, 9]), Some(block(7)), true)));
}

#[test]
fn proof_only_block_attaches_to_buffered_height() {
    let mut chain = ChainState::new(10);
    let _ = chain_result(&mut chain, 1, plain_block(15, None, vec![], 7));
    let a = chain_result(&mut chain, 1, MsgClass::Block {
        height: PROOF_ONLY_HEIGHT,
        hash_ok: false,
        proof_height: Some(15),
        proof: vec![5],
        block: vec![],
    });
    assert!(matches!(a, Action::Wake(15)));
    assert_eq!(entry_of(&chain, 15), Some((Some(vec![5]), Some(block(7)), false)));
}

#[test]
fn proof_only_block_is_kept_until_its_block_arrives() {
    let mut chain = ChainState::new(10);
    let a = chain_result(&mut chain, 1, MsgClass::Block {
        height: PROOF_ONLY_HEIGHT,
        hash_ok: true,
        proof_height: Some(20),
        proof: vec![5],
        block: vec![],
    });
    assert!(matches!(a, Action::Wake(20)));
    assert_eq!(entry_of(&chain, 20), Some((Some(vec![5]), None, false)));
    let _ = chain_result(&mut chain, 1, plain_block(20, None, vec![], 6));
    assert_eq!(entry_of(&chain, 20), Some((Some(vec![5]), Some(block(6)), false)));
}

#[test]
fn proof_and_block_meet_in_either_order() {
    let proof = || MsgClass::Block {
        height: PROOF_ONLY_HEIGHT,
        hash_ok: true,
        proof_height: Some(15),
        proof: vec![5],
        block: vec![],
    };
    let mut first = ChainState::new(10);
    let _ = chain_result(&mut first, 1, proof());
    let _ = chain_result(&mut first, 1, plain_block(15, None, vec![], 7));
    let mut second = ChainState::new(10);
    let _ = chain_result(&mut second, 1, plain_block(15, None, vec![], 7));
    let _ = chain_result(&mut second, 1, proof());
    assert_eq!(entry_of(&first, 15), entry_of(&second, 15));
    assert_eq!(entry_of(&first, 15), Some((Some(vec![5]), Some(block(7)), false)));
}

#[test]
fn proof_only_block_outside_window_is_dropped() {
    let mut chain = ChainState::new(10);
    let a = chain_result(&mut chain, 1, MsgClass::Block {
        height: PROOF_ONLY_HEIGHT,
        hash_ok: true,
        proof_height: Some(310),
        proof: vec![5],
        block: vec![],
    });
    assert!(matches!(a, Action::Drop));
    assert!(chain.pending(310).is_none());
    let b = chain_result(&mut chain, 1, MsgClass::Block {
        height: PROOF_ONLY_HEIGHT,
        hash_ok: true,
        proof_height: Some(4),
        proof: vec![5],
        block: vec![],
    });
    assert!(matches!(b, Action::Drop));
    assert!(chain.current_proof().is_none());
}

#[test]
fn embedded_proof_attaches_to_previous_height() {
    let mut chain = ChainState::new(10);
    let _ = chain_result(&mut chain, 1, plain_block(12, None, vec![], 2));
    let a = chain_result(&mut chain, 1, plain_block(13, Some(12), vec![3, 3], 3));
    assert!(matches!(a, Action::Wake(12)));
    assert_eq!(entry_of(&chain, 12), Some((Some(vec![3, 3]), Some(block(2)), false)));
    assert_eq!(entry_of(&chain, 13), Some((None, Some(block(3)), false)));
}

#[test]
fn embedded_proof_for_confirmed_height_is_kept() {
    let mut chain = ChainState::new(10);
    let a = chain_result(&mut chain, 1, plain_block(11, Some(10), vec![4], 1));
    assert!(matches!(a, Action::Wake(10)));
    assert_eq!(chain.current_proof(), Some(&vec![4]));
}

#[test]
fn block_below_window_is_dropped() {
    let mut chain = ChainState::new(10);
    let a = chain_result(&mut chain, 1, plain_block(5, None, vec![], 1));
    assert!(matches!(a, Action::Drop));
    assert!(chain.pending(5).is_none());
    assert!(chain.pending(10).is_none());
}

#[test]
fn window_edges() {
    let mut chain = ChainState::new(10);
    let _ = chain_result(&mut chain, 1, plain_block(309, None, vec![], 1));
    let _ = chain_result(&mut chain, 1, plain_block(310, None, vec![], 1));
    let _ = chain_result(&mut chain, 1, plain_block(10, None, vec![], 1));
    let _ = chain_result(&mut chain, 1, MsgClass::BlockWithProof { height: 11, proof: vec![1], block: block(1) });
    assert!(chain.pending(309).is_some());
    assert!(chain.pending(310).is_none());
    assert!(chain.pending(10).is_none());
    assert!(chain.pending(11).is_some());
}

#[test]
fn block_failing_root_check_is_dropped() {
    let mut chain = ChainState::new(10);
    let a = chain_result(&mut chain, 1, MsgClass::Block {
        height: 12,
        hash_ok: false,
        proof_height: None,
        proof: vec![],
        block: block(1),
    });
    assert!(matches!(a, Action::Drop));
    assert!(chain.pending(12).is_none());
}

#[test]
fn verified_entry_is_not_overwritten_by_body() {
    let mut chain = ChainState::new(10);
    let _ = chain_result(&mut chain, 1, MsgClass::BlockWithProof { height: 14, proof: vec![1], block: block(1) });
    let _ = chain_result(&mut chain, 1, plain_block(14, None, vec![], 2));
    assert_eq!(entry_of(&chain, 14), Some((Some(vec![1]), Some(block(1)), true)));
    let again = chain_result(&mut chain, 1, MsgClass::BlockWithProof { height: 14, proof: vec![2], block: block(2) });
    assert!(matches!(again, Action::Drop));
    assert_eq!(entry_of(&chain, 14), Some((Some(vec![1]), Some(block(1)), true)));
}

#[test]
fn admitting_twice_equals_once() {
    let msgs = || {
        vec![
            plain_block(20, None, vec![], 1),
            MsgClass::BlockWithProof { height: 21, proof: vec![2], block: block(2) },
            plain_block(22, Some(20), vec![6], 3),
        ]
    };
    let mut once = ChainState::new(10);
    for m in msgs() {
        let _ = chain_result(&mut once, 1, m);
    }
    let mut twice = ChainState::new(10);
    for (a, b) in msgs().into_iter().zip(msgs()) {
        let _ = chain_result(&mut twice, 1, a);
        let _ = chain_result(&mut twice, 1, b);
    }
    for h in 18..25 {
        assert_eq!(entry_of(&once, h), entry_of(&twice, h));
    }
}

#[test]
fn arrival_order_does_not_matter() {
    let body = || plain_block(30, None, vec![], 4);
    let with_proof = || MsgClass::BlockWithProof { height: 30, proof: vec![8], block: block(4) };
    let mut first = ChainState::new(10);
    let _ = chain_result(&mut first, 1, body());
    let _ = chain_result(&mut first, 1, with_proof());
    let mut second = ChainState::new(10);
    let _ = chain_result(&mut second, 1, with_proof());
    let _ = chain_result(&mut second, 1, body());
    assert_eq!(entry_of(&first, 30), entry_of(&second, 30));
    assert_eq!(entry_of(&first, 30), Some((Some(vec![8]), Some(block(4)), true)));
}

#[test]
fn confirm_prunes_and_keeps_proof_of_new_height() {
    let mut chain = ChainState::new(10);
    let _ = chain_result(&mut chain, 1, MsgClass::BlockWithProof { height: 11, proof: vec![1], block: block(1) });
    let _ = chain_result(&mut chain, 1, MsgClass::BlockWithProof { height: 12, proof: vec![2], block: block(2) });
    let _ = chain_result(&mut chain, 1, MsgClass::BlockWithProof { height: 13, proof: vec![3], block: block(3) });
    chain.confirm(12);
    assert_eq!(chain.get_current_height(), 12);
    assert!(chain.pending(11).is_none());
    assert!(chain.pending(12).is_none());
    assert!(chain.pending(13).is_some());
    assert_eq!(chain.current_proof(), Some(&vec![2]));
    chain.confirm(5);
    assert_eq!(chain.get_current_height(), 12);
    assert!(chain.pending(13).is_some());
}

#[test]
fn sync_request_for_confirmed_height_sends_block_and_proof() {
    let mut chain = ChainState::new(6);
    let _ = chain_result(&mut chain, 1, MsgClass::BlockWithProof { height: 7, proof: vec![7, 7], block: block(7) });
    chain.confirm(7);
    let action = chain_result(&mut chain, 9, MsgClass::Msg { kind: MsgKind::SyncBlock, content: encode_sync_request(7) });
    let (origin, height) = match action {
        Action::ServeBlock { origin, height } => (origin, height),
        _ => panic!("expected a lookup"),
    };
    assert_eq!((origin, height), (9, 7));
    let out = chain.serve_block(origin, height, Some(block(7)));
    assert_eq!(out.len(), 2);
    assert!(matches!(&out[0], Outgoing::BlockRelay { origin: 9, block: b } if *b == block(7)));
    assert!(matches!(&out[1], Outgoing::ProofRelay { origin: 9, proof } if *proof == vec![7, 7]));
}

#[test]
fn sync_request_for_older_height_sends_block_only() {
    let chain = ChainState::new(9);
    let out = chain.serve_block(2, 7, Some(block(7)));
    assert_eq!(out.len(), 1);
    assert!(matches!(&out[0], Outgoing::BlockRelay { origin: 2, .. }));
    assert!(chain.serve_block(2, 7, None).is_empty());
}

#[test]
fn unrecognised_command_is_dropped() {
    let mut chain = ChainState::new(10);
    let a = chain_result(&mut chain, 1, MsgClass::Msg { kind: MsgKind::Other, content: vec![0xde, 0xad] });
    assert!(matches!(a, Action::Drop));
    let b = chain_result(&mut chain, 1, MsgClass::Msg { kind: MsgKind::SyncBlock, content: vec![1, 2, 3] });
    assert!(matches!(b, Action::Drop));
    let c = chain_result(&mut chain, 1, MsgClass::Other);
    assert!(matches!(c, Action::Drop));
    assert_eq!(chain.get_current_height(), 10);
    assert_eq!(chain.get_max_height(), 10);
    assert!(!chain.is_syncing());
}

#[test]
fn requests_are_delegated() {
    let mut chain = ChainState::new(10);
    let a = chain_result(&mut chain, 1, MsgClass::Request(vec![1, 2]));
    assert!(matches!(a, Action::Query(q) if q == vec![1, 2]));
    let b = chain_result(&mut chain, 1, MsgClass::BlockTxHashesReq { height: 4 });
    assert!(matches!(b, Action::ServeTxHashes { height: 4 }));
}

#[test]
fn tx_hashes_response_carries_gas_limits() {
    let mut chain = ChainState::new(10);
    chain.set_gas_limits(6000, vec![1, 0]);
    let r = chain.serve_tx_hashes(4, Some(vec![vec![0xaa], vec![0xbb]]));
    match r {
        Some(Outgoing::TxHashes { height, tx_hashes, block_gas_limit, account_gas_limit }) => {
            assert_eq!(height, 4);
            assert_eq!(tx_hashes, vec![vec![0xaa], vec![0xbb]]);
            assert_eq!(block_gas_limit, 6000);
            assert_eq!(account_gas_limit, vec![1, 0]);
        }
        _ => panic!("expected a response"),
    }
    assert!(chain.serve_tx_hashes(4, None).is_none());
}

#[test]
fn sync_payload_is_big_endian() {
    assert_eq!(encode_sync_request(0x0102_0304_0506_0708), vec![1, 2, 3, 4, 5, 6, 7, 8]);
    assert_eq!(decode_sync_request(&vec![0, 0, 0, 0, 0, 0, 1, 0]), Some(256));
    assert_eq!(decode_sync_request(&encode_sync_request(u64::MAX - 3)), Some(u64::MAX - 3));
    assert_eq!(decode_sync_request(&vec![0; 9]), None);
    assert_eq!(decode_sync_request(&vec![]), None);
}

#[test]
fn buffer_attach_keeps_in_window_proof() {
    let mut b = ReconciliationBuffer::new(0);
    assert!(!b.attach_proof(300, vec![1]));
    assert!(b.get(300).is_none());
    assert!(b.attach_proof(3, vec![1]));
    assert_eq!(b.get(3).unwrap().block, None);
    b.admit_block(3, block(3));
    assert_eq!(b.get(3).unwrap().proof, Some(vec![1]));
    assert_eq!(b.get(3).unwrap().block, Some(block(3)));
    assert!(b.get(303).is_none());
}

#[test]
fn buffer_near_top_of_range() {
    let mut b = ReconciliationBuffer::new(u64::MAX - 5);
    b.admit_block(u64::MAX - 1, block(1));
    assert!(b.get(u64::MAX - 1).is_some());
    assert!(b.admit_proof_block(u64::MAX - 2, vec![2], block(2)));
    let p = b.confirm(u64::MAX - 2);
    assert_eq!(p, Some(vec![2]));
    assert!(b.get(u64::MAX - 1).is_some());
}
