//! Blocks, the linear chain they form, and the proof-of-work search.

use vstd::prelude::*;

use crate::digest::{keccak256, keccak_of, meets_target, meets_target_exec};

verus! {

/// Errors of chain extension: both counters are fixed-width, and neither is
/// allowed to wrap around silently.
#[derive(Clone, Copy, Debug, PartialEq, Eq, Structural)]
pub enum ChainError {
    /// The tip's sequence number is already the largest representable one.
    SequenceOverflow,
    /// Every nonce above the starting one was tried without success.
    NonceExhausted,
}

/// True when every byte of the sequence is zero.
pub open spec fn all_zero(s: Seq<u8>) -> bool {
    forall|i: int| 0 <= i < s.len() ==> s[i] == 0u8
}

/// The sixteen bytes of `x` in big-endian order.
pub open spec fn spec_u128_to_be_bytes(x: u128) -> Seq<u8> {
    seq![
        ((x >> 120) & 0xff) as u8,
        ((x >> 112) & 0xff) as u8,
        ((x >> 104) & 0xff) as u8,
        ((x >> 96) & 0xff) as u8,
        ((x >> 88) & 0xff) as u8,
        ((x >> 80) & 0xff) as u8,
        ((x >> 72) & 0xff) as u8,
        ((x >> 64) & 0xff) as u8,
        ((x >> 56) & 0xff) as u8,
        ((x >> 48) & 0xff) as u8,
        ((x >> 40) & 0xff) as u8,
        ((x >> 32) & 0xff) as u8,
        ((x >> 24) & 0xff) as u8,
        ((x >> 16) & 0xff) as u8,
        ((x >> 8) & 0xff) as u8,
        (x & 0xff) as u8,
    ]
}

fn u128_to_be_bytes(x: u128) -> (r: Vec<u8>)
    ensures
        r@ == spec_u128_to_be_bytes(x),
{
    let mut r: Vec<u8> = Vec::new();
    r.push(((x >> 120) & 0xff) as u8);
    r.push(((x >> 112) & 0xff) as u8);
    r.push(((x >> 104) & 0xff) as u8);
    r.push(((x >> 96) & 0xff) as u8);
    r.push(((x >> 88) & 0xff) as u8);
    r.push(((x >> 80) & 0xff) as u8);
    r.push(((x >> 72) & 0xff) as u8);
    r.push(((x >> 64) & 0xff) as u8);
    r.push(((x >> 56) & 0xff) as u8);
    r.push(((x >> 48) & 0xff) as u8);
    r.push(((x >> 40) & 0xff) as u8);
    r.push(((x >> 32) & 0xff) as u8);
    r.push(((x >> 24) & 0xff) as u8);
    r.push(((x >> 16) & 0xff) as u8);
    r.push(((x >> 8) & 0xff) as u8);
    r.push((x & 0xff) as u8);
    proof {
        assert(r@ =~= spec_u128_to_be_bytes(x));
    }
    r
}

fn push_bytes<const N: usize>(v: &mut Vec<u8>, a: &[u8; N])
    ensures
        final(v)@ == old(v)@ + a@,
{
    let mut i: usize = 0;
    while i < N
        invariant
            i <= N,
            v@ == old(v)@ + a@.subrange(0, i as int),
        decreases N - i,
    {
        v.push(a[i]);
        proof {
            assert(v@ =~= old(v)@ + a@.subrange(0, i as int + 1));
        }
        i += 1;
    }
    proof {
        assert(a@.subrange(0, N as int) =~= a@);
    }
}

/// A block of the chain. The `last_block` link carries the whole mined
/// history: it is `None` exactly at genesis.
#[derive(Debug)]
pub struct Block {
    pub number: u128,
    pub last_block_hash: [u8; 32],
    pub merkle_root: [u8; 32],
    pub data: [u8; 20],
    pub nonce: u128,
    pub last_block: Option<Box<Block>>,
}

impl Block {
    /// The fixed 116-byte wire form that is hashed: sequence number,
    /// previous-block hash, accumulator root, payload, nonce, with both
    /// counters written big-endian on sixteen bytes.
    pub open spec fn serialized(self) -> Seq<u8> {
        spec_u128_to_be_bytes(self.number) + self.last_block_hash@ + self.merkle_root@
            + self.data@ + spec_u128_to_be_bytes(self.nonce)
    }

    /// The same block with another nonce and nothing else changed.
    pub open spec fn with_nonce(self, n: u128) -> Block {
        Block { nonce: n, ..self }
    }

    /// Well-formedness of the whole chain hanging off this block: the
    /// genesis block is all zero, and every later block extends its
    /// predecessor by one, carries the predecessor's digest, and chains the
    /// accumulator root one digest further.
    pub open spec fn wf(self) -> bool
        decreases self,
    {
        match self.last_block {
            Option::None => {
                &&& self.number == 0
                &&& all_zero(self.last_block_hash@)
                &&& all_zero(self.merkle_root@)
            },
            Option::Some(pred) => {
                &&& (*pred).wf()
                &&& self.number == (*pred).number + 1
                &&& self.last_block_hash@ == keccak_of((*pred).serialized())
                &&& self.merkle_root@ == keccak_of(
                    keccak_of((*pred).serialized()) + (*pred).merkle_root@,
                )
            },
        }
    }

    /// A fresh zero-valued genesis block.
    pub fn genesis() -> (b: Block)
        ensures
            b.number == 0,
            b.nonce == 0,
            all_zero(b.last_block_hash@),
            all_zero(b.merkle_root@),
            all_zero(b.data@),
            b.last_block is None,
            b.wf(),
    {
        Block {
            number: 0,
            last_block_hash: [0u8; 32],
            merkle_root: [0u8; 32],
            data: [0u8; 20],
            nonce: 0,
            last_block: None,
        }
    }

    /// The wire form of the block as bytes.
    pub fn serialize(&self) -> (r: Vec<u8>)
        ensures
            r@ == self.serialized(),
    {
        let mut r = u128_to_be_bytes(self.number);
        push_bytes(&mut r, &self.last_block_hash);
        push_bytes(&mut r, &self.merkle_root);
        push_bytes(&mut r, &self.data);
        let mut nonce_bytes = u128_to_be_bytes(self.nonce);
        r.append(&mut nonce_bytes);
        r
    }

    /// The block's own digest: Keccak-256 of its wire form.
    pub fn hash(&self) -> (r: [u8; 32])
        ensures
            r@ == keccak_of(self.serialized()),
    {
        let bytes = self.serialize();
        keccak256(bytes.as_slice())
    }

    /// The sequence number of the successor block.
    pub fn next_number(&self) -> (r: u128)
        requires
            self.number < u128::MAX,
        ensures
            r == self.number + 1,
    {
        self.number + 1
    }
}

/// Builds the successor candidate of `tip`: next sequence number, the tip's
/// digest as back-hash, the accumulator chained one step, a zero payload and
/// a zero starting nonce, with `tip` attached as predecessor. Fails exactly
/// when the sequence number cannot grow without wrapping.
pub fn build_successor(tip: Block) -> (r: Result<Block, ChainError>)
    ensures
        r is Ok <==> tip.number < u128::MAX,
        r matches Err(e) ==> e == ChainError::SequenceOverflow,
        r matches Ok(b) ==> {
            &&& b.number == tip.number + 1
            &&& b.last_block_hash@ == keccak_of(tip.serialized())
            &&& b.merkle_root@ == keccak_of(keccak_of(tip.serialized()) + tip.merkle_root@)
            &&& all_zero(b.data@)
            &&& b.nonce == 0
            &&& b.last_block matches Some(p) && *p == tip
        },
        tip.wf() ==> (r matches Ok(b) ==> b.wf()),
{
    if tip.number == u128::MAX {
        return Err(ChainError::SequenceOverflow);
    }
    let tip_hash = tip.hash();
    let merkle_root = calculate_merkle_root(&tip_hash, &tip.merkle_root);
    let number = tip.next_number();
    Ok(
        Block {
            number,
            last_block_hash: tip_hash,
            merkle_root,
            data: [0u8; 20],
            nonce: 0,
            last_block: Some(Box::new(tip)),
        },
    )
}

impl Block {
    /// Proof-of-work search: starting above the current nonce, try each
    /// nonce in turn until the block's digest meets the target; the nonce
    /// held on entry is never itself tested. Only the nonce changes. On
    /// success the found nonce is the least untried one that works; the
    /// search fails loudly, rather than wrap, once the nonce space above the
    /// starting value is exhausted.
    pub fn mine(&mut self, target: usize) -> (r: Result<(), ChainError>)
        requires
            target <= 64,
        ensures
            *final(self) == old(self).with_nonce(final(self).nonce),
            r is Ok ==> {
                &&& final(self).nonce > old(self).nonce
                &&& meets_target(keccak_of(final(self).serialized()), target)
                &&& forall|m: u128|
                    old(self).nonce < m < final(self).nonce ==> !meets_target(
                        keccak_of(old(self).with_nonce(m).serialized()),
                        target,
                    )
            },
            r matches Err(e) ==> {
                &&& e == ChainError::NonceExhausted
                &&& forall|m: u128|
                    old(self).nonce < m ==> !meets_target(
                        keccak_of(old(self).with_nonce(m).serialized()),
                        target,
                    )
            },
    {
        let ghost orig: Block = *self;
        while self.nonce < u128::MAX
            invariant
                target <= 64,
                orig == *old(self),
                *self == orig.with_nonce(self.nonce),
                orig.nonce <= self.nonce,
                forall|m: u128|
                    orig.nonce < m <= self.nonce ==> !meets_target(
                        keccak_of(orig.with_nonce(m).serialized()),
                        target,
                    ),
            decreases u128::MAX - self.nonce,
        {
            self.nonce = self.nonce + 1;
            let h = self.hash();
            if meets_target_exec(&h, target) {
                return Ok(());
            }
        }
        Err(ChainError::NonceExhausted)
    }
}

/// Sequence monotonicity: a well-formed non-genesis block numbers itself one
/// past its predecessor.
pub proof fn lemma_sequence_monotonic(b: Block, pred: Block)
    requires
        b.wf(),
        b.last_block matches Some(p) && *p == pred,
    ensures
        b.number == pred.number + 1,
{
}

/// Accumulator correctness: a well-formed non-genesis block's accumulator
/// root is the digest of the predecessor's digest followed by the
/// predecessor's accumulator root.
pub proof fn lemma_accumulator_correct(b: Block, pred: Block)
    requires
        b.wf(),
        b.last_block matches Some(p) && *p == pred,
    ensures
        b.merkle_root@ == keccak_of(keccak_of(pred.serialized()) + pred.merkle_root@),
        b.last_block_hash@ == keccak_of(pred.serialized()),
{
}

/// Changing a block's own nonce — all that mining does — leaves the chain
/// hanging off it well-formed: well-formedness reads the predecessor's
/// fields and the block's links, never the block's own nonce.
pub proof fn lemma_nonce_change_preserves_wf(b: Block, n: u128)
    requires
        b.wf(),
    ensures
        b.with_nonce(n).wf(),
{
}

/// Determinism of the digest: two blocks with the same field values have
/// the same wire form and hence the same digest, whatever their histories.
pub proof fn lemma_digest_deterministic(a: Block, b: Block)
    requires
        a.number == b.number,
        a.last_block_hash@ == b.last_block_hash@,
        a.merkle_root@ == b.merkle_root@,
        a.data@ == b.data@,
        a.nonce == b.nonce,
    ensures
        keccak_of(a.serialized()) == keccak_of(b.serialized()),
{
    assert(a.serialized() == b.serialized());
}

/// One accumulator step: Keccak-256 of the block digest followed by the
/// previous accumulator root.
pub fn calculate_merkle_root(block_hash: &[u8; 32], last_merkle_root: &[u8; 32]) -> (r: [u8; 32])
    ensures
        r@ == keccak_of(block_hash@ + last_merkle_root@),
{
    let mut bytes: Vec<u8> = Vec::new();
    push_bytes(&mut bytes, block_hash);
    push_bytes(&mut bytes, last_merkle_root);
    proof {
        assert(bytes@ =~= block_hash@ + last_merkle_root@);
    }
    keccak256(bytes.as_slice())
}

} // verus!
