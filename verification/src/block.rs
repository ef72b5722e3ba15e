//! A batch of transactions, linked to the block before it by that block's hash.

use vstd::prelude::*;
use crate::codec::{json_transactions, push_json_transactions};
use crate::digest::{hash_of_text, hash_text};
use crate::text::{decimal, push_decimal};
use crate::transaction::{
    clone_opt_string, clone_transactions, opt_view, same_text, same_transactions,
    transaction_validity, transaction_views, Transaction, TransactionView,
};

verus! {

/// The `previous` entry of the first block of every chain.
pub const VOID_HASH: &'static str = "0000000000000000";

/// The void hash, as characters.
pub open spec fn void_hash() -> Seq<char> {
    VOID_HASH@
}

/// An ordered batch of transactions with the hash of the block before it,
/// the time it was made (seconds) and its own hash.
#[derive(Debug)]
pub struct Block {
    pub previous: Option<String>,
    pub timestamp: i64,
    pub transactions: Box<Vec<Transaction>>,
    pub hash: Option<String>,
}

/// What a block holds.
pub ghost struct BlockView {
    pub previous: Option<Seq<char>>,
    pub timestamp: i64,
    pub transactions: Seq<TransactionView>,
    pub hash: Option<Seq<char>>,
}

impl View for Block {
    type V = BlockView;

    open spec fn view(&self) -> BlockView {
        BlockView {
            previous: opt_view(self.previous),
            timestamp: self.timestamp,
            transactions: transaction_views(self.transactions@),
            hash: opt_view(self.hash),
        }
    }
}

impl Clone for Block {
    fn clone(&self) -> (out: Block)
        ensures
            out@ == self@,
    {
        Block {
            previous: clone_opt_string(&self.previous),
            timestamp: self.timestamp,
            transactions: Box::new(clone_transactions(&self.transactions)),
            hash: clone_opt_string(&self.hash),
        }
    }
}

/// The text that a block is hashed over: the previous hash (nothing where
/// there is none), the timestamp, and the transactions in wire format.
pub open spec fn block_preimage(b: BlockView) -> Seq<char> {
    (match b.previous {
        Some(p) => p,
        None => Seq::empty(),
    }) + decimal(b.timestamp as int) + json_transactions(b.transactions)
}

/// The hash of a block's contents. The `hash` entry is no part of them.
pub open spec fn block_hash(b: BlockView) -> Seq<char> {
    hash_text(block_preimage(b))
}

/// The block of these contents, with its hash.
pub open spec fn sealed_block(
    previous: Option<Seq<char>>,
    timestamp: i64,
    transactions: Seq<TransactionView>,
) -> BlockView {
    BlockView {
        previous,
        timestamp,
        transactions,
        hash: Some(block_hash(BlockView { previous, timestamp, transactions, hash: None })),
    }
}

/// Whether the block's `hash` entry is the hash of its contents.
pub open spec fn is_sealed(b: BlockView) -> bool {
    b.hash == Some(block_hash(b))
}

/// Whether every one of the transactions is valid. One whose validity is
/// an error counts as not valid.
pub open spec fn all_valid(txs: Seq<TransactionView>) -> bool {
    forall|i: int| 0 <= i < txs.len() ==> #[trigger] transaction_validity(txs[i]) == Ok::<
        bool,
        Seq<char>,
    >(true)
}

impl Block {
    /// A block of the given contents. Its hash is computed here, once.
    pub fn new(previous: Option<String>, timestamp: i64, transactions: Box<Vec<Transaction>>) -> (b:
        Block)
        ensures
            b@ == sealed_block(opt_view(previous), timestamp, transaction_views(transactions@)),
            is_sealed(b@),
    {
        let mut block = Block { previous, timestamp, transactions, hash: None };
        let hash = block.calculate_hash();
        block.hash = Some(hash);
        block
    }

    /// The hash of the block's contents as they stand.
    pub fn calculate_hash(&self) -> (hash: String)
        ensures
            hash@ == block_hash(self@),
    {
        let mut preimage = match &self.previous {
            Some(p) => p.clone(),
            None => String::new(),
        };
        push_decimal(&mut preimage, self.timestamp);
        push_json_transactions(&mut preimage, &self.transactions);
        hash_of_text(preimage.as_str())
    }

    /// Whether the block's `hash` entry is the hash of its contents.
    pub fn has_own_hash(&self) -> (r: bool)
        ensures
            r == is_sealed(self@),
    {
        match &self.hash {
            Some(h) => *h == self.calculate_hash(),
            None => false,
        }
    }

    /// Whether every transaction of the block is valid.
    pub fn is_valid(&self) -> (r: bool)
        ensures
            r == all_valid(self@.transactions),
    {
        let mut i: usize = 0;
        while i < self.transactions.len()
            invariant
                i <= self.transactions.len(),
                forall|j: int|
                    0 <= j < i ==> #[trigger] transaction_validity(self@.transactions[j]) == Ok::<
                        bool,
                        Seq<char>,
                    >(true),
            decreases self.transactions.len() - i,
        {
            assert(self@.transactions[i as int] == self.transactions@[i as int]@);
            match self.transactions[i].is_valid() {
                Ok(true) => {},
                _ => {
                    return false;
                },
            }
            i += 1;
        }
        true
    }
}

impl PartialEq for Block {
    fn eq(&self, other: &Self) -> (r: bool) {
        same_text(&self.previous, &other.previous) && self.timestamp == other.timestamp
            && same_transactions(&self.transactions, &other.transactions) && same_text(
            &self.hash,
            &other.hash,
        )
    }
}

impl vstd::std_specs::cmp::PartialEqSpecImpl for Block {
    open spec fn obeys_eq_spec() -> bool {
        true
    }

    open spec fn eq_spec(&self, other: &Self) -> bool {
        self@ == other@
    }
}

impl Eq for Block {

}

/// Whether two sequences of blocks hold the same.
pub(crate) fn same_blocks(a: &Vec<Block>, b: &Vec<Block>) -> (r: bool)
    ensures
        r == (block_views(a@) == block_views(b@)),
{
    if a.len() != b.len() {
        assert(block_views(a@).len() != block_views(b@).len());
        return false;
    }
    let mut i: usize = 0;
    while i < a.len()
        invariant
            i <= a.len(),
            a.len() == b.len(),
            forall|j: int| 0 <= j < i ==> a@[j]@ == b@[j]@,
        decreases a.len() - i,
    {
        if !(a[i] == b[i]) {
            assert(block_views(a@)[i as int] != block_views(b@)[i as int]);
            return false;
        }
        i += 1;
    }
    assert(block_views(a@) =~= block_views(b@));
    true
}

/// A copy of a sequence of blocks.
pub(crate) fn clone_blocks(blocks: &Vec<Block>) -> (out: Vec<Block>)
    ensures
        block_views(out@) == block_views(blocks@),
{
    let mut out: Vec<Block> = Vec::new();
    let mut i: usize = 0;
    while i < blocks.len()
        invariant
            i <= blocks.len(),
            out.len() == i,
            forall|j: int| 0 <= j < i ==> (#[trigger] out@[j])@ == blocks@[j]@,
        decreases blocks.len() - i,
    {
        out.push(blocks[i].clone());
        i += 1;
    }
    assert(block_views(out@) =~= block_views(blocks@));
    out
}

/// What each block of a sequence holds.
pub open spec fn block_views(blocks: Seq<Block>) -> Seq<BlockView> {
    blocks.map_values(|b: Block| b@)
}

} // verus!
