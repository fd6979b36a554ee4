//! The chain: a genesis block, appended mined blocks, and validation.

use vstd::prelude::*;
use vstd::string::StringExecFns;
use crate::block::{nonce_wins, search_fails, Block, BlockView};
use crate::clock::unix_time_now;
use crate::digest::{calculate_hash, can_digest, digestible, DIGEST_LEN};
use crate::transaction::{
    canonical_data, serialize_transactions, transaction_views, Transaction,
};

verus! {

/// An ordered, append-only sequence of blocks. The block at position 0 is
/// the genesis block.
pub struct Blockchain {
    pub blocks: Vec<Block>,
}

/// The views of a list of blocks, in order.
pub open spec fn block_views(blocks: Seq<Block>) -> Seq<BlockView> {
    Seq::new(blocks.len(), |i: int| blocks[i]@)
}

impl View for Blockchain {
    type V = Seq<BlockView>;

    open spec fn view(&self) -> Seq<BlockView> {
        block_views(self.blocks@)
    }
}

/// Whether the block at position `i` names its predecessor's hash and is
/// sealed.
pub open spec fn block_holds(chain: Seq<BlockView>, i: int) -> bool {
    &&& chain[i].prev_hash == chain[i - 1].hash
    &&& chain[i].sealed()
}

/// Whether every block after the first names its predecessor's hash and
/// stores the digest of its own fields. The first block is not examined,
/// and neither is any block's difficulty.
pub open spec fn chain_valid(chain: Seq<BlockView>) -> bool {
    forall|i: int| 1 <= i < chain.len() ==> #[trigger] block_holds(chain, i)
}

/// Whether every block after the first can be digested, which validation
/// needs.
pub open spec fn chain_digestible(chain: Seq<BlockView>) -> bool {
    forall|i: int| 1 <= i < chain.len() ==> (#[trigger] chain[i]).digestible()
}

/// Whether every block stores its own position as its index.
pub open spec fn chain_indexed(chain: Seq<BlockView>) -> bool {
    forall|i: int| 0 <= i < chain.len() ==> (#[trigger] chain[i]).index == i
}

/// Whether `b` is a genesis block: index 0, no transactions, `"0"` in
/// place of a predecessor's hash, nonce 0, and the digest of these fields
/// and its timestamp as its hash.
pub open spec fn is_genesis(b: BlockView) -> bool {
    &&& b.index == 0
    &&& b.transactions.len() == 0
    &&& b.prev_hash == seq!['0']
    &&& b.nonce == 0
    &&& b.sealed()
}

impl Blockchain {
    /// The chain's invariant. It holds of a new chain and appending keeps
    /// it: the chain begins with a genesis block, every block stores its
    /// own position, and every later block names its predecessor's hash,
    /// stores the digest of its own fields and can be digested.
    pub open spec fn well_formed(&self) -> bool {
        &&& self@.len() >= 1
        &&& is_genesis(self@[0])
        &&& chain_indexed(self@)
        &&& chain_valid(self@)
        &&& chain_digestible(self@)
    }

    /// A chain that holds only the genesis block, stamped with `timestamp`.
    /// The genesis block is not mined.
    pub fn new_at(timestamp: i64) -> (r: Blockchain)
        ensures
            r@.len() == 1,
            is_genesis(r@[0]),
            r@[0].timestamp == timestamp,
            r@[0].hash.len() == DIGEST_LEN,
            chain_valid(r@),
            chain_indexed(r@),
            chain_digestible(r@),
            r.well_formed(),
    {
        let transactions: Vec<Transaction> = Vec::new();
        proof {
            reveal_strlit("");
            reveal_strlit("0");
            assert(""@ =~= Seq::<char>::empty());
            assert("0"@ =~= seq!['0']);
            assert(transaction_views(transactions@) =~= Seq::empty());
        }
        let hash = calculate_hash(0, timestamp, "", "0", 0);
        let genesis = Block {
            index: 0,
            timestamp,
            transactions,
            prev_hash: String::from_str("0"),
            hash,
            nonce: 0,
        };
        let mut blocks: Vec<Block> = Vec::new();
        blocks.push(genesis);
        Blockchain { blocks }
    }

    /// A chain that holds only the genesis block, stamped with the current
    /// time.
    pub fn new() -> (r: Blockchain)
        ensures
            r@.len() == 1,
            is_genesis(r@[0]),
            r@[0].hash.len() == DIGEST_LEN,
            chain_valid(r@),
            chain_indexed(r@),
            chain_digestible(r@),
            r.well_formed(),
    {
        Blockchain::new_at(unix_time_now())
    }

    /// Tests what `add_block` asks of the chain and of the transactions: that
    /// the chain has a last block, that the number of blocks fits the index,
    /// and that the new block can be digested.
    pub fn accepts(&self, transactions: &Vec<Transaction>) -> (r: bool)
        ensures
            r == (1 <= self@.len() <= u32::MAX && digestible(
                canonical_data(transaction_views(transactions@)),
                self@.last().hash,
            )),
    {
        let count = self.blocks.len();
        if count < 1 || count > u32::MAX as usize {
            return false;
        }
        let data = serialize_transactions(transactions);
        can_digest(data.as_str(), self.blocks[count - 1].hash.as_str())
    }

    /// Tests what `is_valid` asks of the chain: that every block after the
    /// first can be digested.
    pub fn is_digestible(&self) -> (r: bool)
        ensures
            r == chain_digestible(self@),
    {
        let mut i: usize = 1;
        while i < self.blocks.len()
            invariant
                1 <= i,
                forall|j: int| 1 <= j < i && j < self@.len() ==> (#[trigger] self@[j]).digestible(),
            decreases self.blocks.len() - i,
        {
            let block = &self.blocks[i];
            let data = serialize_transactions(&block.transactions);
            if !can_digest(data.as_str(), block.prev_hash.as_str()) {
                assert(!self@[i as int].digestible());
                return false;
            }
            assert(self@[i as int].digestible());
            i += 1;
        }
        true
    }

    /// Appends `block` if there is one, and reports whether it did.
    fn append(&mut self, block: Option<Block>) -> (appended: bool)
        ensures
            appended == (block is Some),
            appended ==> final(self)@ == old(self)@.push(block->Some_0@),
            !appended ==> final(self)@ == old(self)@,
    {
        match block {
            Some(b) => {
                self.blocks.push(b);
                assert(self@ =~= old(self)@.push(b@));
                true
            },
            None => false,
        }
    }

    /// Mines a block over `transactions` at `difficulty` with the given
    /// timestamp and appends it: its index is the number of blocks so far
    /// and its predecessor hash is the last block's stored hash. Returns
    /// `false`, and leaves the chain as it was, when no counter of the
    /// nonce's type yields a digest with `difficulty` leading `'0'`.
    pub fn add_block_at(
        &mut self,
        timestamp: i64,
        transactions: Vec<Transaction>,
        difficulty: u8,
    ) -> (appended: bool)
        requires
            1 <= old(self)@.len() <= u32::MAX,
            digestible(
                canonical_data(transaction_views(transactions@)),
                old(self)@.last().hash,
            ),
        ensures
            appended <==> !search_fails(
                old(self)@.len() as u32,
                timestamp,
                canonical_data(transaction_views(transactions@)),
                old(self)@.last().hash,
                difficulty,
                u32::MAX,
            ),
            difficulty == 0 ==> appended && final(self)@.last().nonce == 0,
            appended ==> final(self)@.len() == old(self)@.len() + 1,
            appended ==> final(self)@.drop_last() == old(self)@,
            appended ==> final(self)@.last().index == old(self)@.len(),
            appended ==> final(self)@.last().timestamp == timestamp,
            appended ==> final(self)@.last().transactions == transaction_views(transactions@),
            appended ==> final(self)@.last().prev_hash == old(self)@.last().hash,
            appended ==> final(self)@.last().hash.len() == DIGEST_LEN,
            appended ==> final(self)@.last().mined(difficulty),
            !appended ==> final(self)@ == old(self)@,
            chain_valid(old(self)@) ==> chain_valid(final(self)@),
            chain_indexed(old(self)@) ==> chain_indexed(final(self)@),
            chain_digestible(old(self)@) ==> chain_digestible(final(self)@),
            old(self).well_formed() ==> final(self).well_formed(),
    {
        let count = self.blocks.len();
        let prev_hash = self.blocks[count - 1].hash.clone();
        let index = count as u32;
        let mined = Block::mine(
            index,
            timestamp,
            transactions,
            prev_hash.as_str(),
            difficulty,
            u32::MAX,
        );
        let appended = self.append(mined);
        proof {
            assert(prev_hash@ == old(self)@.last().hash);
            if appended {
                let b = self@.last();
                assert(self@.drop_last() =~= old(self)@);
                assert(nonce_wins(index, timestamp, b.data(), b.prev_hash, difficulty, b.nonce));
                lemma_append_keeps_valid(old(self)@, b);
            }
        }
        appended
    }

    /// Mines a block over `transactions` at `difficulty` at the current time
    /// and appends it: its index is the number of blocks so far and its
    /// predecessor hash is the last block's stored hash. Returns `false`,
    /// and leaves the chain as it was, when no counter of the nonce's type
    /// yields a digest with `difficulty` leading `'0'` at the time that was
    /// read.
    pub fn add_block(&mut self, transactions: Vec<Transaction>, difficulty: u8) -> (appended: bool)
        requires
            1 <= old(self)@.len() <= u32::MAX,
            digestible(
                canonical_data(transaction_views(transactions@)),
                old(self)@.last().hash,
            ),
        ensures
            difficulty == 0 ==> appended && final(self)@.last().nonce == 0,
            appended ==> final(self)@.len() == old(self)@.len() + 1,
            appended ==> final(self)@.drop_last() == old(self)@,
            appended ==> final(self)@.last().index == old(self)@.len(),
            appended ==> final(self)@.last().transactions == transaction_views(transactions@),
            appended ==> final(self)@.last().prev_hash == old(self)@.last().hash,
            appended ==> final(self)@.last().hash.len() == DIGEST_LEN,
            appended ==> final(self)@.last().mined(difficulty),
            !appended ==> final(self)@ == old(self)@,
            !appended ==> exists|timestamp: i64|
                #[trigger] search_fails(
                    old(self)@.len() as u32,
                    timestamp,
                    canonical_data(transaction_views(transactions@)),
                    old(self)@.last().hash,
                    difficulty,
                    u32::MAX,
                ),
            chain_valid(old(self)@) ==> chain_valid(final(self)@),
            chain_indexed(old(self)@) ==> chain_indexed(final(self)@),
            chain_digestible(old(self)@) ==> chain_digestible(final(self)@),
            old(self).well_formed() ==> final(self).well_formed(),
    {
        let count = self.blocks.len();
        let prev_hash = self.blocks[count - 1].hash.clone();
        let index = count as u32;
        let mined = Block::new_block(index, transactions, prev_hash.as_str(), difficulty);
        let appended = self.append(mined);
        proof {
            assert(prev_hash@ == old(self)@.last().hash);
            if appended {
                assert(self@.drop_last() =~= old(self)@);
                lemma_append_keeps_valid(old(self)@, self@.last());
            }
        }
        appended
    }

    /// Checks every block after the first: that it names its predecessor's
    /// stored hash, and that its stored hash is the digest of its stored
    /// fields. Stops at the first block that fails.
    pub fn is_valid(&self) -> (r: bool)
        requires
            chain_digestible(self@),
        ensures
            r == chain_valid(self@),
    {
        let mut i: usize = 1;
        while i < self.blocks.len()
            invariant
                1 <= i,
                chain_digestible(self@),
                forall|j: int| 1 <= j < i && j < self@.len() ==> #[trigger] block_holds(self@, j),
            decreases self.blocks.len() - i,
        {
            let curr = &self.blocks[i];
            let prev = &self.blocks[i - 1];
            if !(curr.prev_hash == prev.hash) {
                assert(!block_holds(self@, i as int));
                return false;
            }
            let data = serialize_transactions(&curr.transactions);
            assert(self@[i as int].digestible());
            let calculated = calculate_hash(
                curr.index,
                curr.timestamp,
                data.as_str(),
                curr.prev_hash.as_str(),
                curr.nonce,
            );
            if !(curr.hash == calculated) {
                assert(!block_holds(self@, i as int));
                return false;
            }
            assert(block_holds(self@, i as int));
            i += 1;
        }
        true
    }
}

/// A valid chain stays valid when a sealed block that names the last
/// block's hash is put at its end.
pub proof fn lemma_append_keeps_valid(chain: Seq<BlockView>, block: BlockView)
    requires
        chain.len() >= 1,
        block.sealed(),
        block.prev_hash == chain.last().hash,
    ensures
        chain_valid(chain) ==> chain_valid(chain.push(block)),
        chain_indexed(chain) && block.index == chain.len() ==> chain_indexed(chain.push(block)),
        chain_digestible(chain) && block.digestible() ==> chain_digestible(chain.push(block)),
{
    let longer = chain.push(block);
    if chain_valid(chain) {
        assert forall|i: int| 1 <= i < longer.len() implies #[trigger] block_holds(longer, i) by {
            if i < chain.len() {
                assert(block_holds(chain, i));
            }
        }
    }
}

/// In a valid chain every block after the first names the stored hash of
/// the block before it.
pub proof fn lemma_valid_chain_is_linked(chain: Seq<BlockView>, i: int)
    requires
        chain_valid(chain),
        1 <= i < chain.len(),
    ensures
        chain[i].prev_hash == chain[i - 1].hash,
        chain[i].hash == chain[i].digest(),
{
    assert(block_holds(chain, i));
}

/// A chain is no longer valid once a block after the first has been
/// replaced by one that keeps the stored hash but names another
/// predecessor, or whose fields digest to another value.
pub proof fn lemma_tampering_is_detected(chain: Seq<BlockView>, i: int, forged: BlockView)
    requires
        chain_valid(chain),
        1 <= i < chain.len(),
        forged.hash == chain[i].hash,
        forged.prev_hash != chain[i].prev_hash || forged.digest() != chain[i].digest(),
    ensures
        !chain_valid(chain.update(i, forged)),
{
    assert(block_holds(chain, i));
    assert(!block_holds(chain.update(i, forged), i));
}

} // verus!
