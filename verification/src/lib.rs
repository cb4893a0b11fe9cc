//! A minimal proof-of-work block chain: blocks carry a sequence number, the
//! digest of their predecessor, a running accumulator root, an opaque
//! payload and a nonce; mining searches the nonce space until the block's
//! Keccak-256 digest shows the required number of leading zero nibbles.

pub mod block;
pub mod digest;
