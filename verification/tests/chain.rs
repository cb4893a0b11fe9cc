use powchain::block::{build_successor, calculate_merkle_root, Block, ChainError};
use powchain::digest::meets_target_exec;

#[test]
fn genesis_invariant() {
    let g = Block::genesis();
    assert_eq!(g.number, 0);
    assert_eq!(g.nonce, 0);
    assert_eq!(g.last_block_hash, [0u8; 32]);
    assert_eq!(g.merkle_root, [0u8; 32]);
    assert_eq!(g.data, [0u8; 20]);
    assert!(g.last_block.is_none());
}

#[test]
fn serialize_genesis_is_all_zero() {
    let g = Block::genesis();
    let bytes = g.serialize();
    assert_eq!(bytes.len(), 116);
    assert!(bytes.iter().all(|&b| b == 0));
}

#[test]
fn serialize_is_big_endian_fixed_width() {
    let b = Block {
        number: 0x0102030405060708090a0b0c0d0e0f10u128,
        last_block_hash: [0xaa; 32],
        merkle_root: [0xbb; 32],
        data: [0xcc; 20],
        nonce: 0x1112131415161718191a1b1c1d1e1f20u128,
        last_block: None,
    };
    let bytes = b.serialize();
    assert_eq!(bytes.len(), 116);
    assert_eq!(&bytes[0..16], &(1u8..=16).collect::<Vec<u8>>()[..]);
    assert!(bytes[16..48].iter().all(|&v| v == 0xaa));
    assert!(bytes[48..80].iter().all(|&v| v == 0xbb));
    assert!(bytes[80..100].iter().all(|&v| v == 0xcc));
    assert_eq!(&bytes[100..116], &(0x11u8..=0x20).collect::<Vec<u8>>()[..]);
}

#[test]
fn digest_is_deterministic() {
    let g = Block::genesis();
    assert_eq!(g.hash(), g.hash());

    let a = Block {
        number: 7,
        last_block_hash: [1u8; 32],
        merkle_root: [2u8; 32],
        data: [0u8; 20],
        nonce: 99,
        last_block: None,
    };
    let b = Block {
        number: 7,
        last_block_hash: [1u8; 32],
        merkle_root: [2u8; 32],
        data: [0u8; 20],
        nonce: 99,
        last_block: Some(Box::new(Block::genesis())),
    };
    // The digest reads the serialized fields alone, not the history link.
    assert_eq!(a.hash(), b.hash());
}

#[test]
fn merkle_root_known_value() {
    // Keccak-256 of 64 zero bytes.
    let root = calculate_merkle_root(&[0u8; 32], &[0u8; 32]);
    assert_eq!(
        hex::encode(root),
        "ad3228b676f7d3cd4284a5443f17f1962b36e491b30a40b2405849e597ba5fb5"
    );
}

#[test]
fn successor_links_and_numbers() {
    let g = Block::genesis();
    let g_hash = g.hash();
    let g_merkle = g.merkle_root;
    let b = build_successor(g).unwrap();
    assert_eq!(b.number, 1);
    assert_eq!(b.nonce, 0);
    assert_eq!(b.data, [0u8; 20]);
    assert_eq!(b.last_block_hash, g_hash);
    assert_eq!(b.merkle_root, calculate_merkle_root(&g_hash, &g_merkle));
    let pred = b.last_block.as_ref().unwrap();
    assert_eq!(pred.number, 0);
    assert!(pred.last_block.is_none());
}

#[test]
fn next_number_increments() {
    let g = Block::genesis();
    assert_eq!(g.next_number(), 1);
}

#[test]
fn target_parity_even() {
    let mut digest = [0xaau8; 32];
    digest[0] = 0;
    digest[1] = 0;
    for nibble in [0x00u8, 0x0f, 0xf0, 0xff] {
        digest[2] = nibble;
        // An even target constrains whole bytes only.
        assert!(meets_target_exec(&digest, 4));
    }
    digest[1] = 1;
    digest[2] = 0;
    assert!(!meets_target_exec(&digest, 4));
}

#[test]
fn target_parity_odd() {
    let mut digest = [0xaau8; 32];
    digest[0] = 0;
    digest[1] = 0;
    // An odd target additionally asks a zero high nibble of the next byte.
    digest[2] = 0x00;
    assert!(meets_target_exec(&digest, 5));
    digest[2] = 0x0f;
    assert!(meets_target_exec(&digest, 5));
    digest[2] = 0xf0;
    assert!(!meets_target_exec(&digest, 5));
    digest[2] = 0xff;
    assert!(!meets_target_exec(&digest, 5));
}

#[test]
fn target_zero_accepts_first_tried_nonce() {
    let g = Block::genesis();
    let mut b = build_successor(g).unwrap();
    // With no difficulty every digest passes, so the very first tried nonce
    // — one past the initial value, which is never itself tested — wins.
    assert!(b.mine(0).is_ok());
    assert_eq!(b.nonce, 1);
}

#[test]
fn mine_genesis_to_block_one() {
    let g = Block::genesis();
    let mut b = build_successor(g).unwrap();
    b.mine(4).unwrap();
    assert_eq!(b.number, 1);
    assert!(b.nonce > 0);
    let digest = b.hash();
    assert_eq!(digest[0], 0);
    assert_eq!(digest[1], 0);
    let pred = b.last_block.as_ref().unwrap();
    assert_eq!(pred.number, 0);
    assert_eq!(pred.last_block_hash, [0u8; 32]);
    assert_eq!(pred.merkle_root, [0u8; 32]);
    assert!(pred.last_block.is_none());
}

#[test]
fn mine_extends_chain_twice() {
    let g = Block::genesis();
    let mut first = build_successor(g).unwrap();
    first.mine(2).unwrap();
    let first_hash = first.hash();
    let first_merkle = first.merkle_root;
    let mut second = build_successor(first).unwrap();
    second.mine(2).unwrap();
    assert_eq!(second.number, 2);
    assert_eq!(second.last_block_hash, first_hash);
    assert_eq!(
        second.merkle_root,
        calculate_merkle_root(&first_hash, &first_merkle)
    );
    assert_eq!(second.hash()[0], 0);
}

#[test]
fn sequence_overflow_fails_loudly() {
    let tip = Block {
        number: u128::MAX,
        last_block_hash: [0u8; 32],
        merkle_root: [0u8; 32],
        data: [0u8; 20],
        nonce: 0,
        last_block: None,
    };
    assert_eq!(build_successor(tip).unwrap_err(), ChainError::SequenceOverflow);
}

#[test]
fn nonce_exhaustion_fails_loudly() {
    let mut b = Block {
        number: 1,
        last_block_hash: [0u8; 32],
        merkle_root: [0u8; 32],
        data: [0u8; 20],
        nonce: u128::MAX,
        last_block: None,
    };
    assert_eq!(b.mine(4).unwrap_err(), ChainError::NonceExhausted);
    assert_eq!(b.nonce, u128::MAX);
}
