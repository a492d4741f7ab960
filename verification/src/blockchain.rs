//! The chain of blocks, and the check of detached signatures.

use vstd::prelude::*;
use vstd::string::StringExecFns;
use openssl::error::ErrorStack;
use hex::FromHexError;
use crate::block::{genesis_view, links_to, valid_successor, Block, BlockView};
use crate::crypto::{ecdsa_accepts, ecdsa_verify, error_stack_text};
use crate::encoding::{
    hex_bytes, hex_decode, hex_error_text, hex_text, is_hex_text, lemma_hex_round_trip,
};
use crate::keys::{signature_bytes, WalletView, COMPONENT_LEN, SIGNATURE_LEN};
use crate::utils::zero_digest;

verus! {

/// Difficulty of a fresh chain.
pub const DEFAULT_DIFFICULTY: usize = 1;

/// What can go wrong in the ledger.
#[derive(Debug)]
pub enum BcError {
    /// The signature is shorter than 64 bytes.
    InvalidSignature,
    /// The public key is not hexadecimal text.
    HexDecodingError(FromHexError),
    /// The cryptographic backend failed, or refused the key material.
    OpenSslError(ErrorStack),
    /// An address could not be derived from a public key.
    KeyDerivationError(String),
    /// No block meets the criteria of a lookup.
    BlockNotFound,
}

impl From<FromHexError> for BcError {
    fn from(err: FromHexError) -> (e: Self) {
        BcError::HexDecodingError(err)
    }
}

impl vstd::std_specs::convert::FromSpecImpl<FromHexError> for BcError {
    open spec fn obeys_from_spec() -> bool {
        true
    }

    open spec fn from_spec(err: FromHexError) -> Self {
        BcError::HexDecodingError(err)
    }
}

impl From<ErrorStack> for BcError {
    fn from(err: ErrorStack) -> (e: Self) {
        BcError::OpenSslError(err)
    }
}

impl vstd::std_specs::convert::FromSpecImpl<ErrorStack> for BcError {
    open spec fn obeys_from_spec() -> bool {
        true
    }

    open spec fn from_spec(err: ErrorStack) -> Self {
        BcError::OpenSslError(err)
    }
}

impl BcError {
    /// The error in words. For an error that came from outside, the words
    /// of its source follow a fixed heading.
    pub fn message(&self) -> (text: String)
        ensures
            match *self {
                BcError::InvalidSignature => text@ == "signature verification failed"@,
                BcError::HexDecodingError(_) => "hex decoding error: "@.is_prefix_of(text@),
                BcError::OpenSslError(_) => "openssl error: "@.is_prefix_of(text@),
                BcError::KeyDerivationError(msg) => text@ == "key derivation error: "@ + msg@,
                BcError::BlockNotFound => text@ == "requested block not found"@,
            },
    {
        match self {
            BcError::InvalidSignature => "signature verification failed".to_owned(),
            BcError::HexDecodingError(err) => {
                let detail = hex_error_text(err);
                "hex decoding error: ".to_owned().concat(detail.as_str())
            },
            BcError::OpenSslError(err) => {
                let detail = error_stack_text(err);
                "openssl error: ".to_owned().concat(detail.as_str())
            },
            BcError::KeyDerivationError(msg) => {
                "key derivation error: ".to_owned().concat(msg.as_str())
            },
            BcError::BlockNotFound => "requested block not found".to_owned(),
        }
    }
}

/// The component `r` of a signature: its first 32 bytes.
pub open spec fn signature_r(raw_sig: Seq<u8>) -> Seq<u8> {
    raw_sig.subrange(0, COMPONENT_LEN as int)
}

/// The component `s` of a signature: the 32 bytes after `r`. What follows
/// them is not part of the signature.
pub open spec fn signature_s(raw_sig: Seq<u8>) -> Seq<u8> {
    raw_sig.subrange(COMPONENT_LEN as int, SIGNATURE_LEN as int)
}

/// What the check of a signature comes to once the signature is long enough
/// and the key is hexadecimal: the backend's verdict on the decoded key and
/// the two components, or the backend's error.
pub open spec fn verdict_stands(
    outcome: Result<bool, BcError>,
    raw_sig: Seq<u8>,
    data: Seq<u8>,
    pub_key: Seq<char>,
) -> bool {
    match outcome {
        Ok(valid) => valid == ecdsa_accepts(
            hex_bytes(pub_key),
            signature_r(raw_sig),
            signature_s(raw_sig),
            data,
        ),
        Err(err) => err is OpenSslError,
    }
}

/// Whether `blocks` is a chain: it starts with the genesis block, and each
/// later block names the digest of the one before it and has the next index.
pub open spec fn is_chain(blocks: Seq<BlockView>) -> bool {
    &&& blocks.len() > 0
    &&& blocks[0] == genesis_view()
    &&& forall|i: int| 0 < i < blocks.len() ==> links_to(#[trigger] blocks[i], blocks[i - 1])
}

/// Whether `blocks` is a chain in which every block after the first carries
/// a proof of work at `difficulty`.
pub open spec fn is_proven_chain(blocks: Seq<BlockView>, difficulty: nat) -> bool {
    &&& is_chain(blocks)
    &&& forall|i: int|
        0 < i < blocks.len() ==> valid_successor(#[trigger] blocks[i], blocks[i - 1], difficulty)
}

/// What a chain is, as plain values.
pub ghost struct ChainView {
    pub blocks: Seq<BlockView>,
    pub difficulty: nat,
}

impl ChainView {
    /// The first block, if there is one.
    pub open spec fn genesis(self) -> Option<BlockView> {
        if self.blocks.len() > 0 {
            Some(self.blocks.first())
        } else {
            None
        }
    }

    /// The last block, if there is one.
    pub open spec fn head(self) -> Option<BlockView> {
        if self.blocks.len() > 0 {
            Some(self.blocks.last())
        } else {
            None
        }
    }

    /// A chain as `Blockchain::new` makes it: the genesis block alone, at
    /// the default difficulty.
    pub open spec fn is_fresh(self) -> bool {
        &&& self.blocks == seq![genesis_view()]
        &&& self.difficulty == DEFAULT_DIFFICULTY
    }
}

/// The ledger: blocks in the order in which they were appended, and the
/// number of leading target bytes that a mined digest must show.
#[derive(Debug)]
pub struct Blockchain {
    pub blocks: Vec<Block>,
    pub difficulty: usize,
}

impl View for Blockchain {
    type V = ChainView;

    open spec fn view(&self) -> ChainView {
        ChainView {
            blocks: Seq::new(self.blocks@.len(), |i: int| self.blocks@[i]@),
            difficulty: self.difficulty as nat,
        }
    }
}

impl Blockchain {
    /// The invariant of a ledger that only ever grew by blocks mined on its
    /// tail.
    pub open spec fn well_formed(&self) -> bool {
        is_chain(self@.blocks)
    }

    /// The invariant of a ledger that only ever grew by checked appends:
    /// it is well formed, and every block after the first carries a proof
    /// of work at the chain's difficulty.
    pub open spec fn proven(&self) -> bool {
        is_proven_chain(self@.blocks, self@.difficulty)
    }

    /// A chain of the genesis block alone, at the default difficulty.
    pub fn new() -> (chain: Self)
        ensures
            chain@.is_fresh(),
            chain.blocks@.len() == 1,
            chain.well_formed(),
            chain.proven(),
    {
        let mut blocks: Vec<Block> = Vec::new();
        blocks.push(Block::mine_genesis());
        let chain = Blockchain { blocks, difficulty: DEFAULT_DIFFICULTY };
        assert(chain@.blocks =~= seq![genesis_view()]);
        chain
    }

    /// The tail of the chain, on which the next block is mined.
    pub fn prev_block(&self) -> (block: &Block)
        requires
            self.blocks@.len() > 0,
        ensures
            *block == self.blocks@.last(),
            block@ == self@.blocks.last(),
    {
        &self.blocks[self.blocks.len() - 1]
    }

    /// Appends `block` as it is. Nothing is checked: the caller vouches
    /// that the block was mined on the tail.
    pub fn add_block(&mut self, block: Block)
        ensures
            final(self).blocks@ == old(self).blocks@.push(block),
            final(self)@.blocks == old(self)@.blocks.push(block@),
            final(self).difficulty == old(self).difficulty,
            old(self).well_formed() && links_to(block@, old(self)@.blocks.last())
                ==> final(self).well_formed(),
    {
        self.blocks.push(block);
        assert(self@.blocks =~= old(self)@.blocks.push(block@));
    }

    /// Appends `block` if it is a valid successor of the tail at the
    /// chain's difficulty, and says whether it did. An empty chain takes
    /// no block.
    pub fn add_block_checked(&mut self, block: Block) -> (added: bool)
        ensures
            added == (old(self)@.blocks.len() > 0 && valid_successor(
                block@,
                old(self)@.blocks.last(),
                old(self)@.difficulty,
            )),
            added ==> final(self)@.blocks == old(self)@.blocks.push(block@),
            !added ==> final(self)@.blocks == old(self)@.blocks,
            final(self).difficulty == old(self).difficulty,
            old(self).well_formed() ==> final(self).well_formed(),
            old(self).proven() ==> final(self).proven(),
    {
        if self.blocks.len() == 0 {
            return false;
        }
        if !block.is_valid_successor(self.prev_block(), self.difficulty) {
            return false;
        }
        self.add_block(block);
        true
    }

    /// Checks the detached signature `raw_sig` over `data` against the
    /// public key that `pub_key` holds in hexadecimal (a DER-encoded
    /// SubjectPublicKeyInfo).
    ///
    /// A signature of fewer than 64 bytes is `InvalidSignature`, whatever
    /// the rest. Then a key that is not hexadecimal is `HexDecodingError`.
    /// Then the backend decides: its verdict on the first 32 bytes as `r`
    /// and the next 32 as `s` is returned as it is, and so is its error.
    /// The backend takes no more than `i32::MAX` bytes of data.
    pub fn verify_sig(&self, raw_sig: &[u8], data: &[u8], pub_key: &str) -> (outcome: Result<
        bool,
        BcError,
    >)
        requires
            raw_sig@.len() >= SIGNATURE_LEN && is_hex_text(pub_key@) ==> data@.len() <= i32::MAX,
        ensures
            raw_sig@.len() < SIGNATURE_LEN ==> outcome matches Err(BcError::InvalidSignature),
            raw_sig@.len() >= SIGNATURE_LEN && !is_hex_text(pub_key@) ==> outcome matches Err(
                BcError::HexDecodingError(_),
            ),
            raw_sig@.len() >= SIGNATURE_LEN && is_hex_text(pub_key@) ==> verdict_stands(
                outcome,
                raw_sig@,
                data@,
                pub_key@,
            ),
    {
        if raw_sig.len() < SIGNATURE_LEN {
            return Err(BcError::InvalidSignature);
        }
        let decoded_der = match hex_decode(pub_key) {
            Ok(bytes) => bytes,
            Err(err) => {
                return Err(BcError::from(err));
            },
        };
        let r = &raw_sig[0..COMPONENT_LEN];
        let s = &raw_sig[COMPONENT_LEN..SIGNATURE_LEN];
        match ecdsa_verify(decoded_der.as_slice(), r, s, data) {
            Ok(valid) => Ok(valid),
            Err(err) => Err(BcError::from(err)),
        }
    }

    /// The first block, if there is one.
    pub fn genesis(&self) -> (first: Option<&Block>)
        ensures
            match first {
                Some(block) => *block == self.blocks@.first() && self@.genesis() == Some(block@),
                None => self@.genesis() is None,
            },
    {
        self.blocks.as_slice().first()
    }

    /// The last block, if there is one.
    pub fn head(&self) -> (last: Option<&Block>)
        ensures
            match last {
                Some(block) => *block == self.blocks@.last() && self@.head() == Some(block@),
                None => self@.head() is None,
            },
    {
        self.blocks.as_slice().last()
    }
}

/// A fresh chain holds one block, and that block has index 0 and names the
/// zero digest as its predecessor.
pub proof fn lemma_fresh_chain(chain: ChainView)
    requires
        chain.is_fresh(),
    ensures
        chain.blocks.len() == 1,
        chain.genesis() matches Some(first) && first.index == 0 && first.prev_hash
            == zero_digest(),
        chain.head() == chain.genesis(),
        is_chain(chain.blocks),
{
}

/// A chain stays a chain when a block that links to its tail is appended.
pub proof fn lemma_append_keeps_chain(blocks: Seq<BlockView>, block: BlockView)
    requires
        is_chain(blocks),
        links_to(block, blocks.last()),
    ensures
        is_chain(blocks.push(block)),
{
}

/// In a chain, the index of a block is its position.
pub proof fn lemma_index_is_position(blocks: Seq<BlockView>, i: int)
    requires
        is_chain(blocks),
        0 <= i < blocks.len(),
    ensures
        blocks[i].index == i,
    decreases i,
{
    if i > 0 {
        lemma_index_is_position(blocks, i - 1);
    }
}

/// A signature laid out from two components of 32 bytes is long enough, and
/// it is taken apart into the same two components.
pub proof fn lemma_signature_splits(r: Seq<u8>, s: Seq<u8>)
    requires
        r.len() == COMPONENT_LEN,
        s.len() == COMPONENT_LEN,
    ensures
        signature_bytes(r, s).len() == SIGNATURE_LEN,
        signature_r(signature_bytes(r, s)) == r,
        signature_s(signature_bytes(r, s)) == s,
{
    assert(signature_r(signature_bytes(r, s)) =~= r);
    assert(signature_s(signature_bytes(r, s)) =~= s);
}

/// Bytes after the first 64 of a signature do not bear on the check.
pub proof fn lemma_trailing_bytes_are_ignored(
    raw_sig: Seq<u8>,
    extra: Seq<u8>,
    data: Seq<u8>,
    pub_key: Seq<char>,
    outcome: Result<bool, BcError>,
)
    requires
        raw_sig.len() >= SIGNATURE_LEN,
    ensures
        verdict_stands(outcome, raw_sig + extra, data, pub_key) == verdict_stands(
            outcome,
            raw_sig,
            data,
            pub_key,
        ),
{
    assert(signature_r(raw_sig + extra) =~= signature_r(raw_sig));
    assert(signature_s(raw_sig + extra) =~= signature_s(raw_sig));
}

/// Checking a signature laid out from `r` and `s` against the address of a
/// well-formed wallet comes to the backend's verdict on that wallet's public
/// key and on `r` and `s` themselves, or to the backend's error.
pub proof fn lemma_own_signature_reaches_backend(
    wallet: WalletView,
    r: Seq<u8>,
    s: Seq<u8>,
    data: Seq<u8>,
    outcome: Result<bool, BcError>,
)
    requires
        wallet.address == hex_text(wallet.pub_key),
        r.len() == COMPONENT_LEN,
        s.len() == COMPONENT_LEN,
    ensures
        signature_bytes(r, s).len() >= SIGNATURE_LEN,
        is_hex_text(wallet.address),
        verdict_stands(outcome, signature_bytes(r, s), data, wallet.address) <==> match outcome {
            Ok(valid) => valid == ecdsa_accepts(wallet.pub_key, r, s, data),
            Err(err) => err is OpenSslError,
        },
{
    lemma_signature_splits(r, s);
    lemma_hex_round_trip(wallet.pub_key);
}

} // verus!
