//! Blocks and the proof-of-work search that produces them.

use vstd::prelude::*;
use vstd::string::StringSliceAdditionalSpecFns;
use vstd::utf8::{encode_utf8, is_ascii_chars_encode_utf8};
use crate::crypto::sha256_digest;
use crate::encoding::{
    decimal_ascii, decimal_text, hex_ascii, hex_text, lemma_decimal_digits,
    lemma_hex_ascii_index, lemma_hex_text_utf8, push_decimal,
};
use crate::utils::{zero_digest, Hash32, DIGEST_LEN};

verus! {

/// The byte that every leading byte of a mined digest must equal.
pub const TARGET_BYTE: u8 = 7;

/// The pattern a mined digest starts with: `difficulty` copies of the target
/// byte.
pub open spec fn target_pattern(difficulty: nat) -> Seq<u8> {
    Seq::new(difficulty, |i: int| TARGET_BYTE)
}

/// Whether the first `difficulty` bytes of `digest` are the target pattern.
pub open spec fn meets_target(digest: Seq<u8>, difficulty: nat) -> bool {
    &&& difficulty <= digest.len()
    &&& digest.subrange(0, difficulty as int) == target_pattern(difficulty)
}

/// The bytes that are hashed for one attempt: the predecessor's digest in
/// hexadecimal, then the index and the nonce in decimal, with nothing
/// between them.
pub open spec fn candidate(prev_hash: Seq<u8>, index: nat, nonce: nat) -> Seq<u8> {
    hex_ascii(prev_hash) + decimal_ascii(index) + decimal_ascii(nonce)
}

/// The digest of the attempt with the given nonce.
pub open spec fn pow_digest(prev_hash: Seq<u8>, index: nat, nonce: nat) -> Seq<u8> {
    sha256_digest(candidate(prev_hash, index, nonce))
}

/// Whether `nonce` is a proof of work for a block at `index` on top of
/// `prev_hash`.
pub open spec fn solves(prev_hash: Seq<u8>, index: nat, nonce: nat, difficulty: nat) -> bool {
    meets_target(pow_digest(prev_hash, index, nonce), difficulty)
}

/// What a block is, as plain values.
pub ghost struct BlockView {
    pub hash: Seq<u8>,
    pub prev_hash: Seq<u8>,
    pub nonce: nat,
    pub index: nat,
    pub miner_addr: Seq<char>,
}

/// The first block of every chain: zero digests, index 0, nonce 0, no miner.
pub open spec fn genesis_view() -> BlockView {
    BlockView {
        hash: zero_digest(),
        prev_hash: zero_digest(),
        nonce: 0,
        index: 0,
        miner_addr: Seq::empty(),
    }
}

/// `block` follows `prev` in a chain: it names `prev`'s digest and has the
/// next index.
pub open spec fn links_to(block: BlockView, prev: BlockView) -> bool {
    &&& block.prev_hash == prev.hash
    &&& block.index == prev.index + 1
}

/// `block` follows `prev` and carries a proof of work: its digest is the
/// digest of its own attempt and starts with the target pattern.
pub open spec fn valid_successor(block: BlockView, prev: BlockView, difficulty: nat) -> bool {
    &&& links_to(block, prev)
    &&& block.hash == pow_digest(prev.hash, block.index, block.nonce)
    &&& meets_target(block.hash, difficulty)
}

/// `block` is what mining on `prev` yields: a valid successor whose nonce is
/// the smallest that is a proof of work.
pub open spec fn mined_from(block: BlockView, prev: BlockView, difficulty: nat) -> bool {
    &&& valid_successor(block, prev, difficulty)
    &&& forall|m: nat| m < block.nonce ==> !solves(prev.hash, block.index, m, difficulty)
}

/// One entry of the ledger.
#[derive(Debug, PartialEq)]
pub struct Block {
    pub hash: Hash32,
    pub prev_hash: Hash32,
    pub nonce: u64,
    pub index: u64,
    pub miner_addr: String,
}

impl View for Block {
    type V = BlockView;

    open spec fn view(&self) -> BlockView {
        BlockView {
            hash: self.hash@,
            prev_hash: self.prev_hash@,
            nonce: self.nonce as nat,
            index: self.index as nat,
            miner_addr: self.miner_addr@,
        }
    }
}

/// Whether the first `difficulty` bytes of `hash` are the target pattern.
pub fn check_target(hash: &Hash32, difficulty: usize) -> (ok: bool)
    ensures
        ok == meets_target(hash@, difficulty as nat),
{
    proof {
        hash.lemma_len();
    }
    if difficulty > DIGEST_LEN {
        return false;
    }
    let lead = hash.get_substr(difficulty);
    let mut i: usize = 0;
    while i < difficulty
        invariant
            i <= difficulty <= DIGEST_LEN,
            lead@ == hash@.subrange(0, difficulty as int),
            hash@.len() == DIGEST_LEN,
            forall|j: int| 0 <= j < i ==> lead@[j] == TARGET_BYTE,
        decreases difficulty - i,
    {
        if lead[i] != TARGET_BYTE {
            assert(target_pattern(difficulty as nat)[i as int] == TARGET_BYTE);
            return false;
        }
        i += 1;
    }
    assert(lead@ =~= target_pattern(difficulty as nat));
    true
}

/// The part of an attempt that does not change with the nonce.
fn candidate_prefix(prev_hash: &Hash32, index: u64) -> (buf: Vec<u8>)
    ensures
        buf@ == hex_ascii(prev_hash@) + decimal_ascii(index as nat),
{
    let text = prev_hash.to_hex();
    let mut buf = vstd::slice::slice_to_vec(text.as_str().as_bytes());
    proof {
        lemma_hex_text_utf8(prev_hash@);
    }
    push_decimal(&mut buf, index);
    buf
}

/// Hashes the attempt with the given nonce. `buf` starts with the prefix of
/// `prefix_len` bytes, which is kept; what follows it is overwritten.
fn attempt(buf: &mut Vec<u8>, prefix_len: usize, nonce: u64) -> (hash: Hash32)
    requires
        prefix_len <= old(buf)@.len(),
    ensures
        final(buf)@.len() >= prefix_len,
        final(buf)@.subrange(0, prefix_len as int) == old(buf)@.subrange(0, prefix_len as int),
        hash@ == sha256_digest(old(buf)@.subrange(0, prefix_len as int) + decimal_ascii(nonce as nat)),
        hash@.len() == 32,
{
    buf.truncate(prefix_len);
    let ghost prefix = buf@;
    push_decimal(buf, nonce);
    assert(buf@.subrange(0, prefix_len as int) =~= prefix);
    Hash32::digest(buf.as_slice())
}

impl Block {
    /// The genesis block. It is not mined.
    pub fn mine_genesis() -> (block: Self)
        ensures
            block@ == genesis_view(),
    {
        Block {
            hash: Hash32::default(),
            prev_hash: Hash32::default(),
            nonce: 0,
            index: 0,
            miner_addr: String::new(),
        }
    }

    /// Mines the block that follows `prev_block`: tries the nonces 0, 1, 2, ...
    /// in turn and stops at the first whose digest starts with `difficulty`
    /// target bytes.
    ///
    /// The search has no bound of its own, so some nonce must be a proof of
    /// work. `mine_with_witness` asks for no such knowledge.
    pub fn mine(prev_block: &Block, miner_addr: &str, difficulty: usize) -> (block: Self)
        requires
            prev_block.index < u64::MAX,
            difficulty <= DIGEST_LEN,
            exists|nonce: nat|
                nonce <= u64::MAX && #[trigger] solves(
                    prev_block.hash@,
                    (prev_block.index + 1) as nat,
                    nonce,
                    difficulty as nat,
                ),
        ensures
            block@.miner_addr == miner_addr@,
            mined_from(block@, prev_block@, difficulty as nat),
            block@.prev_hash == prev_block@.hash,
            block@.index == prev_block@.index + 1,
            block@.hash.subrange(0, difficulty as int) == target_pattern(difficulty as nat),
    {
        let prev_hash = prev_block.hash;
        let index = prev_block.index + 1;
        let mut buf = candidate_prefix(&prev_hash, index);
        let prefix_len = buf.len();
        let ghost prefix = buf@;
        let mut nonce: u64 = 0;
        while nonce < u64::MAX
            invariant
                prev_hash@ == prev_block@.hash,
                index == prev_block.index + 1,
                prefix == hex_ascii(prev_hash@) + decimal_ascii(index as nat),
                prefix_len == prefix.len(),
                prefix_len <= buf@.len(),
                buf@.subrange(0, prefix_len as int) == prefix,
                forall|m: nat| m < nonce ==> !solves(prev_hash@, index as nat, m, difficulty as nat),
            decreases u64::MAX - nonce,
        {
            let hash = attempt(&mut buf, prefix_len, nonce);
            if check_target(&hash, difficulty) {
                return Block { hash, prev_hash, nonce, index, miner_addr: miner_addr.to_owned() };
            }
            nonce += 1;
        }
        // Every smaller nonce has failed, so the proof of work that exists is
        // the last one.
        let hash = attempt(&mut buf, prefix_len, nonce);
        Block { hash, prev_hash, nonce, index, miner_addr: miner_addr.to_owned() }
    }

    /// Mines on `prev_block` as `mine` does, given a nonce that is claimed to
    /// be a proof of work. The claim is tested first: if it holds, the search
    /// is sure to end at `witness` at the latest, and the mined block is
    /// returned; if it does not, or if the index cannot grow, nothing is mined.
    pub fn mine_with_witness(
        prev_block: &Block,
        miner_addr: &str,
        difficulty: usize,
        witness: u64,
    ) -> (found: Option<Self>)
        ensures
            found.is_some() <==> prev_block.index < u64::MAX && solves(
                prev_block.hash@,
                (prev_block.index + 1) as nat,
                witness as nat,
                difficulty as nat,
            ),
            found matches Some(block) ==> {
                &&& block@.miner_addr == miner_addr@
                &&& mined_from(block@, prev_block@, difficulty as nat)
                &&& block.nonce <= witness
            },
    {
        if prev_block.index == u64::MAX {
            return None;
        }
        let index = prev_block.index + 1;
        let mut buf = candidate_prefix(&prev_block.hash, index);
        let prefix_len = buf.len();
        assert(buf@.subrange(0, prefix_len as int) =~= buf@);
        let hash = attempt(&mut buf, prefix_len, witness);
        if !check_target(&hash, difficulty) {
            return None;
        }
        assert(solves(
            prev_block.hash@,
            (prev_block.index + 1) as nat,
            witness as nat,
            difficulty as nat,
        ));
        let block = Block::mine(prev_block, miner_addr, difficulty);
        assert(solves(prev_block@.hash, block@.index, witness as nat, difficulty as nat));
        Some(block)
    }

    /// Whether this block may stand after `prev_block` in a chain of the
    /// given difficulty: it names `prev_block`'s digest, has the next index,
    /// and its digest is the digest of its own attempt and starts with the
    /// target pattern.
    pub fn is_valid_successor(&self, prev_block: &Block, difficulty: usize) -> (ok: bool)
        ensures
            ok == valid_successor(self@, prev_block@, difficulty as nat),
    {
        if prev_block.index == u64::MAX || self.index != prev_block.index + 1 {
            return false;
        }
        if !self.prev_hash.same_as(&prev_block.hash) {
            return false;
        }
        let mut buf = candidate_prefix(&prev_block.hash, self.index);
        let prefix_len = buf.len();
        assert(buf@.subrange(0, prefix_len as int) =~= buf@);
        let hash = attempt(&mut buf, prefix_len, self.nonce);
        hash.same_as(&self.hash) && check_target(&hash, difficulty)
    }
}

impl Default for Block {
    /// The genesis block.
    fn default() -> (block: Self)
        ensures
            block@ == genesis_view(),
    {
        Block::mine_genesis()
    }
}

/// A mined block names its predecessor's digest, has the next index, and its
/// digest starts with the target pattern.
pub proof fn lemma_mined_block(block: BlockView, prev: BlockView, difficulty: nat)
    requires
        mined_from(block, prev, difficulty),
    ensures
        block.prev_hash == prev.hash,
        block.index == prev.index + 1,
        block.hash.subrange(0, difficulty as int) == target_pattern(difficulty),
        solves(prev.hash, block.index, block.nonce, difficulty),
{
}

/// Mining is a function of the predecessor and the difficulty: two blocks
/// mined from the same block agree on everything but the miner.
pub proof fn lemma_mining_is_deterministic(
    a: BlockView,
    b: BlockView,
    prev: BlockView,
    difficulty: nat,
)
    requires
        mined_from(a, prev, difficulty),
        mined_from(b, prev, difficulty),
    ensures
        a.nonce == b.nonce,
        a.hash == b.hash,
        a.index == b.index,
        a.prev_hash == b.prev_hash,
{
    lemma_mined_block(a, prev, difficulty);
    lemma_mined_block(b, prev, difficulty);
}

/// The attempt as text: what is hashed is the UTF-8 encoding of the
/// predecessor's digest in hexadecimal followed by the index and the nonce in
/// decimal.
pub proof fn lemma_candidate_is_text(prev_hash: Seq<u8>, index: nat, nonce: nat)
    ensures
        candidate(prev_hash, index, nonce) == encode_utf8(
            hex_text(prev_hash) + decimal_text(index) + decimal_text(nonce),
        ),
{
    let text = hex_text(prev_hash) + decimal_text(index) + decimal_text(nonce);
    let bytes = candidate(prev_hash, index, nonce);
    lemma_decimal_digits(index);
    lemma_decimal_digits(nonce);
    assert forall|i: int| 0 <= i < text.len() implies '\0' <= #[trigger] text[i] <= '\u{7f}'
        && text[i] as u8 == bytes[i] by {
        if i < hex_text(prev_hash).len() {
            lemma_hex_ascii_index(prev_hash, i);
        }
    }
    is_ascii_chars_encode_utf8(text);
    assert(encode_utf8(text) =~= bytes);
}

} // verus!
