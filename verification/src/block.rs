//! Blocks and the proof-of-work search that produces them.

use vstd::prelude::*;
use vstd::string::StringExecFns;
use crate::clock::unix_time_now;
use crate::digest::{
    block_digest, calculate_hash, digestible, has_leading_zeros, meets_difficulty, DIGEST_LEN,
};
use crate::transaction::{
    canonical_data, serialize_transactions, transaction_views, Transaction, TransactionView,
};

verus! {

/// One entry of the chain.
pub struct Block {
    /// Position in the chain; the genesis block has index 0.
    pub index: u32,
    /// Seconds since the Unix epoch at the time of mining.
    pub timestamp: i64,
    /// The transactions, in the order in which they are digested.
    pub transactions: Vec<Transaction>,
    /// The predecessor's hash, or `"0"` for the genesis block.
    pub prev_hash: String,
    /// The digest of the other fields.
    pub hash: String,
    /// The counter that the search ended on.
    pub nonce: u32,
}

/// What a block is, as plain values.
pub struct BlockView {
    pub index: u32,
    pub timestamp: i64,
    pub transactions: Seq<TransactionView>,
    pub prev_hash: Seq<char>,
    pub hash: Seq<char>,
    pub nonce: u32,
}

impl View for Block {
    type V = BlockView;

    open spec fn view(&self) -> BlockView {
        BlockView {
            index: self.index,
            timestamp: self.timestamp,
            transactions: transaction_views(self.transactions@),
            prev_hash: self.prev_hash@,
            hash: self.hash@,
            nonce: self.nonce,
        }
    }
}

/// Whether the digest of the given fields with counter `nonce` begins with
/// `difficulty` characters `'0'`.
pub open spec fn nonce_wins(
    index: u32,
    timestamp: i64,
    data: Seq<char>,
    prev_hash: Seq<char>,
    difficulty: u8,
    nonce: u32,
) -> bool {
    has_leading_zeros(block_digest(index, timestamp, data, prev_hash, nonce), difficulty as nat)
}

/// Whether no counter up to `max_nonce` wins for the given fields.
pub open spec fn search_fails(
    index: u32,
    timestamp: i64,
    data: Seq<char>,
    prev_hash: Seq<char>,
    difficulty: u8,
    max_nonce: u32,
) -> bool {
    forall|n: u32|
        n <= max_nonce ==> !#[trigger] nonce_wins(index, timestamp, data, prev_hash, difficulty, n)
}

impl BlockView {
    /// The canonical text of the block's transactions.
    pub open spec fn data(self) -> Seq<char> {
        canonical_data(self.transactions)
    }

    /// Whether the block's fields can be digested.
    pub open spec fn digestible(self) -> bool {
        digestible(self.data(), self.prev_hash)
    }

    /// The digest of the block's fields, recomputed.
    pub open spec fn digest(self) -> Seq<char> {
        block_digest(self.index, self.timestamp, self.data(), self.prev_hash, self.nonce)
    }

    /// Whether the stored hash is the digest of the stored fields.
    pub open spec fn sealed(self) -> bool {
        self.hash == self.digest()
    }

    /// Whether the block is what the search at `difficulty` yields for its
    /// index, timestamp, transactions and predecessor: it is sealed, its
    /// hash begins with `difficulty` characters `'0'`, and no smaller
    /// counter would have won.
    pub open spec fn mined(self, difficulty: u8) -> bool {
        &&& self.sealed()
        &&& has_leading_zeros(self.hash, difficulty as nat)
        &&& forall|n: u32|
            n < self.nonce ==> !#[trigger] nonce_wins(
                self.index,
                self.timestamp,
                self.data(),
                self.prev_hash,
                difficulty,
                n,
            )
    }
}

impl Block {
    /// Searches the counters `0, 1, ..., max_nonce` in this order for the
    /// first whose digest begins with `difficulty` characters `'0'`, with the
    /// timestamp fixed, and builds the block around it. Returns `None` when
    /// no counter in that range wins.
    pub fn mine(
        index: u32,
        timestamp: i64,
        transactions: Vec<Transaction>,
        prev_hash: &str,
        difficulty: u8,
        max_nonce: u32,
    ) -> (r: Option<Block>)
        requires
            digestible(canonical_data(transaction_views(transactions@)), prev_hash@),
        ensures
            r is Some ==> r->Some_0@.index == index,
            r is Some ==> r->Some_0@.timestamp == timestamp,
            r is Some ==> r->Some_0@.transactions == transaction_views(transactions@),
            r is Some ==> r->Some_0@.prev_hash == prev_hash@,
            r is Some ==> r->Some_0@.hash.len() == DIGEST_LEN,
            r is Some ==> r->Some_0@.nonce <= max_nonce,
            r is Some ==> r->Some_0@.mined(difficulty),
            r is None <==> search_fails(
                index,
                timestamp,
                canonical_data(transaction_views(transactions@)),
                prev_hash@,
                difficulty,
                max_nonce,
            ),
            difficulty == 0 ==> r is Some && r->Some_0@.nonce == 0,
    {
        let data = serialize_transactions(&transactions);
        let mut nonce: u32 = 0;
        let mut hash = calculate_hash(index, timestamp, data.as_str(), prev_hash, nonce);
        while !meets_difficulty(hash.as_str(), difficulty)
            invariant
                nonce <= max_nonce,
                difficulty == 0 ==> nonce == 0,
                data@ == canonical_data(transaction_views(transactions@)),
                digestible(data@, prev_hash@),
                hash@ == block_digest(index, timestamp, data@, prev_hash@, nonce),
                hash@.len() == DIGEST_LEN,
                forall|n: u32|
                    n < nonce ==> !#[trigger] nonce_wins(
                        index,
                        timestamp,
                        data@,
                        prev_hash@,
                        difficulty,
                        n,
                    ),
            decreases max_nonce - nonce,
        {
            if nonce == max_nonce {
                return None;
            }
            nonce += 1;
            hash = calculate_hash(index, timestamp, data.as_str(), prev_hash, nonce);
        }
        assert(nonce_wins(index, timestamp, data@, prev_hash@, difficulty, nonce));
        Some(
            Block {
                index,
                timestamp,
                transactions,
                prev_hash: String::from_str(prev_hash),
                hash,
                nonce,
            },
        )
    }

    /// Mines a block at the current time. The clock is read once, before
    /// the search, and every counter of the nonce's type is tried. Returns
    /// `None` when none of them wins at the time that was read.
    pub fn new_block(
        index: u32,
        transactions: Vec<Transaction>,
        prev_hash: &str,
        difficulty: u8,
    ) -> (r: Option<Block>)
        requires
            digestible(canonical_data(transaction_views(transactions@)), prev_hash@),
        ensures
            r is Some ==> r->Some_0@.index == index,
            r is Some ==> r->Some_0@.transactions == transaction_views(transactions@),
            r is Some ==> r->Some_0@.prev_hash == prev_hash@,
            r is Some ==> r->Some_0@.hash.len() == DIGEST_LEN,
            r is Some ==> r->Some_0@.mined(difficulty),
            r is None ==> exists|timestamp: i64|
                #[trigger] search_fails(
                    index,
                    timestamp,
                    canonical_data(transaction_views(transactions@)),
                    prev_hash@,
                    difficulty,
                    u32::MAX,
                ),
            difficulty == 0 ==> r is Some && r->Some_0@.nonce == 0,
    {
        let timestamp = unix_time_now();
        Block::mine(index, timestamp, transactions, prev_hash, difficulty, u32::MAX)
    }
}

} // verus!
