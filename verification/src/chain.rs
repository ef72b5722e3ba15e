//! The ledger: a chain of blocks that starts with a genesis block, and a
//! bounded buffer of admitted transactions that are not yet in a block.
//!
//! Balances are settled balances: they count the chain and never the buffer.

use vstd::prelude::*;
use crate::block::{
    all_valid, block_views, clone_blocks, is_sealed, same_blocks, sealed_block, void_hash, Block,
    BlockView, VOID_HASH,
};
use crate::clock::now;
use crate::codec::{decode_chain, decode_chain_text, encode_chain, json_chain};
use crate::error::BlockchainError;
use crate::transaction::{
    clone_opt_string, clone_transactions, same_text, same_transactions, transaction_validity,
    transaction_views, void_address, Transaction, TransactionView, VOID_ADDRESS,
};

verus! {

/// How many transactions the buffer holds at most.
pub const BUFFER_LIMIT: usize = 10;

/// An append-only ledger.
///
/// A ledger always holds at least its genesis block, and never more than
/// `BUFFER_LIMIT` pending transactions: every ledger that this module
/// hands out is well formed, and its operations ask for that and keep it.
#[derive(Debug)]
pub struct BlockChain {
    chain: Vec<Block>,
    transaction_buffer: Vec<Transaction>,
}

/// What a ledger holds: the committed chain, and the pending transactions.
pub ghost struct LedgerView {
    pub chain: Seq<BlockView>,
    pub pending: Seq<TransactionView>,
}

impl LedgerView {
    /// The chain has a first block, and the buffer is within its limit.
    pub open spec fn well_formed(self) -> bool {
        self.chain.len() > 0 && self.pending.len() <= BUFFER_LIMIT
    }
}

impl View for BlockChain {
    type V = LedgerView;

    closed spec fn view(&self) -> LedgerView {
        LedgerView {
            chain: block_views(self.chain@),
            pending: transaction_views(self.transaction_buffer@),
        }
    }
}

impl PartialEq for BlockChain {
    fn eq(&self, other: &Self) -> (r: bool) {
        same_blocks(&self.chain, &other.chain) && same_transactions(
            &self.transaction_buffer,
            &other.transaction_buffer,
        )
    }
}

impl vstd::std_specs::cmp::PartialEqSpecImpl for BlockChain {
    open spec fn obeys_eq_spec() -> bool {
        true
    }

    open spec fn eq_spec(&self, other: &Self) -> bool {
        self@ == other@
    }
}

impl Eq for BlockChain {

}

impl Clone for BlockChain {
    fn clone(&self) -> (out: BlockChain)
        ensures
            out@ == self@,
    {
        BlockChain {
            chain: clone_blocks(&self.chain),
            transaction_buffer: clone_transactions(&self.transaction_buffer),
        }
    }
}

/// What each address of a sequence holds.
pub open spec fn address_views(addresses: Seq<String>) -> Seq<Seq<char>> {
    addresses.map_values(|a: String| a@)
}

/// The transaction that mints one unit to `address`.
pub open spec fn mint(address: Seq<char>, timestamp: i64) -> TransactionView {
    TransactionView { from: void_address(), to: address, amount: 1, timestamp, signature: None }
}

/// Whether `t` mints one unit to `address`: from the void address, unsigned.
pub open spec fn is_mint_to(t: TransactionView, address: Seq<char>) -> bool {
    t.from == void_address() && t.to == address && t.amount == 1 && t.signature is None
}

/// One mint for each address, in the order of the addresses.
pub open spec fn genesis_transactions(addresses: Seq<Seq<char>>, timestamp: i64) -> Seq<
    TransactionView,
> {
    Seq::new(addresses.len(), |i: int| mint(addresses[i], timestamp))
}

/// The genesis block of the addresses, with mints made at `timestamp`: it
/// follows the void hash and carries the timestamp 0.
pub open spec fn genesis_block(addresses: Seq<Seq<char>>, timestamp: i64) -> BlockView {
    sealed_block(Some(void_hash()), 0, genesis_transactions(addresses, timestamp))
}

/// Whether `b` is a genesis block of exactly these addresses in this order,
/// whenever its mints were made.
pub open spec fn is_genesis_for(b: BlockView, addresses: Seq<Seq<char>>) -> bool {
    &&& b.previous == Some(void_hash())
    &&& b.timestamp == 0
    &&& b.transactions.len() == addresses.len()
    &&& forall|i: int|
        0 <= i < addresses.len() ==> is_mint_to(#[trigger] b.transactions[i], addresses[i])
    &&& is_sealed(b)
}

/// Whether block `i` follows block `i - 1`, holds only valid transactions,
/// and carries the hash of its contents.
pub open spec fn follows(chain: Seq<BlockView>, i: int) -> bool {
    &&& chain[i].previous == chain[i - 1].hash
    &&& all_valid(chain[i].transactions)
    &&& is_sealed(chain[i])
}

/// Whether the chain is intact: it starts with the genesis block of the
/// addresses, and every later block follows the one before it.
pub open spec fn chain_valid(chain: Seq<BlockView>, addresses: Seq<Seq<char>>) -> bool {
    &&& chain.len() > 0
    &&& is_genesis_for(chain[0], addresses)
    &&& forall|i: int| 1 <= i < chain.len() ==> #[trigger] follows(chain, i)
}

/// What one transaction adds to the balance of `address`: the amount where
/// it is the receiver, less the amount where it is the sender.
pub open spec fn credit(t: TransactionView, address: Seq<char>) -> int {
    (if t.to == address {
        t.amount as int
    } else {
        0
    }) - (if t.from == address {
        t.amount as int
    } else {
        0
    })
}

/// What the transactions add to the balance of `address`.
pub open spec fn transactions_balance(txs: Seq<TransactionView>, address: Seq<char>) -> int
    decreases txs.len(),
{
    if txs.len() == 0 {
        0
    } else {
        transactions_balance(txs.drop_last(), address) + credit(txs.last(), address)
    }
}

/// The balance of `address` over a chain: every transaction of every block.
pub open spec fn chain_balance(chain: Seq<BlockView>, address: Seq<char>) -> int
    decreases chain.len(),
{
    if chain.len() == 0 {
        0
    } else {
        chain_balance(chain.drop_last(), address) + transactions_balance(
            chain.last().transactions,
            address,
        )
    }
}

/// `x` in 64-bit two's complement: `x` itself where it fits in an `i64`.
pub open spec fn wrap_i64(x: int) -> i64 {
    let m = x % 0x1_0000_0000_0000_0000;
    if m >= 0x8000_0000_0000_0000 {
        (m - 0x1_0000_0000_0000_0000) as i64
    } else {
        m as i64
    }
}

/// The settled balance of `address`, as the ledger reports it.
pub open spec fn settled_balance(chain: Seq<BlockView>, address: Seq<char>) -> i64 {
    wrap_i64(chain_balance(chain, address))
}

/// The amounts of the pending transactions that `from` sends, summed.
pub open spec fn pending_total(pending: Seq<TransactionView>, from: Seq<char>) -> int
    decreases pending.len(),
{
    if pending.len() == 0 {
        0
    } else {
        pending_total(pending.drop_last(), from) + (if pending.last().from == from {
            pending.last().amount as int
        } else {
            0
        })
    }
}

/// What a transaction to or from the void address is refused with.
pub open spec fn msg_void_party() -> Seq<char> {
    "Invalid Transaction:: Invalid to or from address"@
}

/// What a transaction that is not valid is refused with.
pub open spec fn msg_not_valid() -> Seq<char> {
    "Invalid Transaction:: Transaction not valid"@
}

/// What an amount that is not positive is refused with.
pub open spec fn msg_amount() -> Seq<char> {
    "Invalid Transaction:: Transaction amount should be greater than zero"@
}

/// What an amount above the sender's settled balance is refused with.
pub open spec fn msg_balance() -> Seq<char> {
    "Invalid Transaction:: Insufficient balance"@
}

/// What a sender whose pending transactions exceed the settled balance is refused with.
pub open spec fn msg_pending() -> Seq<char> {
    "Invalid Transaction:: Pending transaction amount exceeded"@
}

/// Why the ledger refuses a transaction, if it does. The rules apply in
/// this order, and the first that is broken decides: neither party is the
/// void address; the transaction is valid; the amount is positive; the
/// sender's settled balance covers the amount; and what the sender has
/// pending already does not exceed that balance.
pub open spec fn rejection(l: LedgerView, t: TransactionView, valid: bool) -> Option<Seq<char>> {
    if t.from == void_address() || t.to == void_address() {
        Some(msg_void_party())
    } else if !valid {
        Some(msg_not_valid())
    } else if t.amount <= 0 {
        Some(msg_amount())
    } else if settled_balance(l.chain, t.from) < t.amount {
        Some(msg_balance())
    } else if l.pending.len() > 0 && pending_total(l.pending, t.from) > settled_balance(
        l.chain,
        t.from,
    ) {
        Some(msg_pending())
    } else {
        None
    }
}

/// The block that a flush at `timestamp` appends: the pending
/// transactions, behind the hash of the latest block.
pub open spec fn next_block(l: LedgerView, timestamp: i64) -> BlockView {
    sealed_block(l.chain.last().hash, timestamp, l.pending)
}

/// The ledger after a flush at `timestamp`: with pending transactions, the
/// chain is one block longer. The buffer is as it was.
pub open spec fn flushed(l: LedgerView, timestamp: i64) -> LedgerView {
    if l.pending.len() > 0 {
        LedgerView { chain: l.chain.push(next_block(l, timestamp)), pending: l.pending }
    } else {
        l
    }
}

/// The ledger with everything committed at `timestamp`: flushed, and the
/// buffer emptied.
pub open spec fn committed(l: LedgerView, timestamp: i64) -> LedgerView {
    if l.pending.len() > 0 {
        LedgerView { chain: l.chain.push(next_block(l, timestamp)), pending: Seq::empty() }
    } else {
        l
    }
}

/// The ledger after `t` has been admitted at `timestamp`: `t` joins the
/// buffer; a buffer that is full is first committed to a new block.
pub open spec fn admitted(l: LedgerView, t: TransactionView, timestamp: i64) -> LedgerView {
    if l.pending.len() < BUFFER_LIMIT {
        LedgerView { chain: l.chain, pending: l.pending.push(t) }
    } else {
        LedgerView { chain: l.chain.push(next_block(l, timestamp)), pending: seq![t] }
    }
}

/// The ledger after it has been given `text` to load: the chain is the one
/// that `text` is the wire format of, if it is that of a chain with at
/// least one block. On any other text nothing changes.
pub open spec fn deserialized(l: LedgerView, text: Seq<char>) -> LedgerView {
    match decode_chain(text) {
        Some(chain) => if chain.len() > 0 {
            LedgerView { chain, pending: l.pending }
        } else {
            l
        },
        None => l,
    }
}

/// Whether `r` refuses a transaction with `message`.
pub open spec fn is_refusal(r: Result<(), BlockchainError>, message: Seq<char>) -> bool {
    r matches Err(BlockchainError::TransactionError { content }) && content@ == message
}

proof fn lemma_wrap_step(sum: int, amount: i64)
    ensures
        wrap_i64(sum + amount) == vstd::wrapping::i64_specs::wrapping_add(wrap_i64(sum), amount),
        wrap_i64(sum - amount) == vstd::wrapping::i64_specs::wrapping_sub(wrap_i64(sum), amount),
        i64::MIN <= sum <= i64::MAX ==> wrap_i64(sum) == sum,
{
}

impl BlockChain {
    /// The genesis block of the addresses, with mints made at `timestamp`.
    pub fn genesis_block_at(registered_addresses: &Vec<String>, timestamp: i64) -> (b: Block)
        ensures
            b@ == genesis_block(address_views(registered_addresses@), timestamp),
            is_genesis_for(b@, address_views(registered_addresses@)),
    {
        let mut mints: Vec<Transaction> = Vec::new();
        let mut i: usize = 0;
        while i < registered_addresses.len()
            invariant
                i <= registered_addresses.len(),
                mints.len() == i,
                forall|j: int|
                    0 <= j < i ==> (#[trigger] mints@[j])@ == mint(
                        registered_addresses@[j]@,
                        timestamp,
                    ),
            decreases registered_addresses.len() - i,
        {
            mints.push(
                Transaction::new_at(
                    VOID_ADDRESS.to_owned(),
                    registered_addresses[i].clone(),
                    1,
                    timestamp,
                ),
            );
            i += 1;
        }
        assert(transaction_views(mints@) =~= genesis_transactions(
            address_views(registered_addresses@),
            timestamp,
        ));
        Block::new(Some(VOID_HASH.to_owned()), 0, Box::new(mints))
    }

    /// The genesis block of the addresses, with mints made now.
    pub fn create_genesis_block(&self, registered_addresses: Box<Vec<String>>) -> (b: Block)
        ensures
            exists|timestamp: i64|
                b@ == #[trigger] genesis_block(address_views(registered_addresses@), timestamp),
            is_genesis_for(b@, address_views(registered_addresses@)),
    {
        BlockChain::genesis_block_at(&registered_addresses, now())
    }

    /// A ledger that holds the genesis block of the addresses, with mints
    /// made at `timestamp`, and nothing pending.
    pub fn new_at(registered_addresses: Box<Vec<String>>, timestamp: i64) -> (ledger: BlockChain)
        ensures
            ledger@ == (LedgerView {
                chain: seq![genesis_block(address_views(registered_addresses@), timestamp)],
                pending: Seq::empty(),
            }),
            ledger@.well_formed(),
    {
        let genesis = BlockChain::genesis_block_at(&registered_addresses, timestamp);
        let mut chain: Vec<Block> = Vec::new();
        chain.push(genesis);
        let ledger = BlockChain { chain, transaction_buffer: Vec::new() };
        assert(ledger@.chain =~= seq![
            genesis_block(address_views(registered_addresses@), timestamp),
        ]);
        assert(ledger@.pending =~= Seq::empty());
        ledger
    }

    /// A ledger that holds the genesis block of the addresses, with mints
    /// made now, and nothing pending.
    pub fn new(registered_addresses: Box<Vec<String>>) -> (ledger: BlockChain)
        ensures
            exists|timestamp: i64|
                ledger@ == (LedgerView {
                    chain: seq![
                        #[trigger] genesis_block(address_views(registered_addresses@), timestamp),
                    ],
                    pending: Seq::empty(),
                }),
            ledger@.well_formed(),
    {
        BlockChain::new_at(registered_addresses, now())
    }

    /// The last block of the chain.
    pub fn get_latest_block(&self) -> (b: &Block)
        requires
            self@.well_formed(),
        ensures
            b@ == self@.chain.last(),
    {
        &self.chain[self.chain.len() - 1]
    }

    /// The blocks of the chain.
    pub fn blocks(&self) -> (chain: &Vec<Block>)
        requires
            self@.well_formed(),
        ensures
            block_views(chain@) == self@.chain,
    {
        &self.chain
    }

    /// The pending transactions.
    pub fn pending(&self) -> (pending: &Vec<Transaction>)
        requires
            self@.well_formed(),
        ensures
            transaction_views(pending@) == self@.pending,
    {
        &self.transaction_buffer
    }

    /// The settled balance of `address`: what the committed blocks credit
    /// it less what they debit it. Pending transactions do not count. The
    /// sum is reported in 64-bit two's complement.
    pub fn get_address_balance(&self, address: &String) -> (balance: i64)
        ensures
            balance == settled_balance(self@.chain, address@),
            i64::MIN <= chain_balance(self@.chain, address@) <= i64::MAX ==> balance
                == chain_balance(self@.chain, address@),
    {
        let ghost chain = self@.chain;
        let ghost who = address@;
        let mut balance: i64 = 0;
        let mut b: usize = 0;
        assert(chain.take(0) =~= Seq::<BlockView>::empty());
        while b < self.chain.len()
            invariant
                b <= self.chain.len(),
                chain == block_views(self.chain@),
                who == address@,
                balance == wrap_i64(chain_balance(chain.take(b as int), who)),
            decreases self.chain.len() - b,
        {
            let block = &self.chain[b];
            let ghost txs = chain[b as int].transactions;
            let ghost before = chain_balance(chain.take(b as int), who);
            let mut i: usize = 0;
            assert(txs.take(0) =~= Seq::<TransactionView>::empty());
            while i < block.transactions.len()
                invariant
                    i <= block.transactions.len(),
                    txs == transaction_views(block.transactions@),
                    who == address@,
                    balance == wrap_i64(before + transactions_balance(txs.take(i as int), who)),
                decreases block.transactions.len() - i,
            {
                let trans = &block.transactions[i];
                let ghost seen = before + transactions_balance(txs.take(i as int), who);
                assert(txs.take(i + 1).drop_last() =~= txs.take(i as int));
                assert(txs.take(i + 1).last() == trans@);
                if trans.from == *address {
                    proof {
                        lemma_wrap_step(seen, trans.amount);
                    }
                    balance = balance.wrapping_sub(trans.amount);
                }
                if trans.to == *address {
                    proof {
                        lemma_wrap_step(seen - (if trans@.from == who {
                            trans.amount as int
                        } else {
                            0
                        }), trans.amount);
                    }
                    balance = balance.wrapping_add(trans.amount);
                }
                i += 1;
            }
            assert(txs.take(i as int) =~= txs);
            assert(chain.take(b + 1).drop_last() =~= chain.take(b as int));
            assert(chain.take(b + 1).last() == chain[b as int]);
            b += 1;
        }
        assert(chain.take(b as int) =~= chain);
        proof {
            lemma_wrap_step(chain_balance(chain, who), 0);
        }
        balance
    }

    fn pending_sum(&self, from: &String) -> (total: i128)
        requires
            self@.well_formed(),
        ensures
            total == pending_total(self@.pending, from@),
    {
        let ghost pending = self@.pending;
        let mut total: i128 = 0;
        let mut i: usize = 0;
        assert(pending.take(0) =~= Seq::<TransactionView>::empty());
        while i < self.transaction_buffer.len()
            invariant
                i <= self.transaction_buffer.len() <= BUFFER_LIMIT,
                pending == transaction_views(self.transaction_buffer@),
                total == pending_total(pending.take(i as int), from@),
                -(i * 0x8000_0000_0000_0000) <= total <= i * 0x8000_0000_0000_0000,
            decreases self.transaction_buffer.len() - i,
        {
            let t = &self.transaction_buffer[i];
            assert(pending.take(i + 1).drop_last() =~= pending.take(i as int));
            assert(pending.take(i + 1).last() == t@);
            if t.from == *from {
                total = total + t.amount as i128;
            }
            i += 1;
        }
        assert(pending.take(i as int) =~= pending);
        total
    }

    /// Appends a block of the pending transactions, made at `timestamp`
    /// behind the latest block, if any transaction is pending. The buffer
    /// is left as it is.
    pub fn create_block_from_buffer_at(&mut self, timestamp: i64)
        requires
            old(self)@.well_formed(),
        ensures
            final(self)@ == flushed(old(self)@, timestamp),
            final(self)@.well_formed(),
    {
        if self.transaction_buffer.len() > 0 {
            let previous = clone_opt_string(&self.get_latest_block().hash);
            let block = Block::new(
                previous,
                timestamp,
                Box::new(clone_transactions(&self.transaction_buffer)),
            );
            let ghost before = self.chain@;
            self.chain.push(block);
            assert(block_views(self.chain@) =~= block_views(before).push(block@));
        }
    }

    /// Appends a block of the pending transactions, made now behind the
    /// latest block, if any transaction is pending. The buffer is left as
    /// it is.
    pub fn create_block_from_buffer(&mut self)
        requires
            old(self)@.well_formed(),
        ensures
            exists|timestamp: i64| final(self)@ == #[trigger] flushed(old(self)@, timestamp),
            final(self)@.well_formed(),
    {
        self.create_block_from_buffer_at(now());
    }

    /// Admits or refuses a transaction whose validity has been judged: the
    /// rules of `rejection`, in their order. An admitted transaction joins
    /// the buffer; a refused one changes nothing.
    pub fn accept(&mut self, transaction: Transaction, valid: bool, timestamp: i64) -> (r: Result<
        (),
        BlockchainError,
    >)
        requires
            old(self)@.well_formed(),
        ensures
            final(self)@.well_formed(),
            match rejection(old(self)@, transaction@, valid) {
                Some(message) => is_refusal(r, message) && final(self)@ == old(self)@,
                None => r is Ok && final(self)@ == admitted(
                    old(self)@,
                    transaction@,
                    timestamp,
                ),
            },
    {
        let void = VOID_ADDRESS.to_owned();
        if transaction.from == void || transaction.to == void {
            return Err(
                BlockchainError::TransactionError {
                    content: "Invalid Transaction:: Invalid to or from address".to_owned(),
                },
            );
        }
        if !valid {
            return Err(
                BlockchainError::TransactionError {
                    content: "Invalid Transaction:: Transaction not valid".to_owned(),
                },
            );
        }
        if transaction.amount <= 0 {
            return Err(
                BlockchainError::TransactionError {
                    content: "Invalid Transaction:: Transaction amount should be greater than zero".to_owned(),
                },
            );
        }
        let wallet_balance = self.get_address_balance(&transaction.from);
        if wallet_balance < transaction.amount {
            return Err(
                BlockchainError::TransactionError {
                    content: "Invalid Transaction:: Insufficient balance".to_owned(),
                },
            );
        }
        if self.transaction_buffer.len() > 0 {
            let total_pending_amount = self.pending_sum(&transaction.from);
            if total_pending_amount > wallet_balance as i128 {
                return Err(
                    BlockchainError::TransactionError {
                        content: "Invalid Transaction:: Pending transaction amount exceeded".to_owned(),
                    },
                );
            }
        }
        let ghost before = self.transaction_buffer@;
        if self.transaction_buffer.len() < BUFFER_LIMIT {
            self.transaction_buffer.push(transaction);
            assert(transaction_views(self.transaction_buffer@) =~= transaction_views(before).push(
                transaction@,
            ));
        } else {
            self.create_block_from_buffer_at(timestamp);
            self.transaction_buffer.clear();
            self.transaction_buffer.push(transaction);
            assert(transaction_views(self.transaction_buffer@) =~= seq![transaction@]);
        }
        Ok(())
    }

    /// Admits or refuses a transaction, with a flush, where one is due,
    /// made at `timestamp`. The transaction's own validity is judged here;
    /// a validity that is an error counts as not valid.
    pub fn add_transaction_at(&mut self, transaction: Transaction, timestamp: i64) -> (r: Result<
        (),
        BlockchainError,
    >)
        requires
            old(self)@.well_formed(),
        ensures
            final(self)@.well_formed(),
            match rejection(
                old(self)@,
                transaction@,
                transaction_validity(transaction@) == Ok::<bool, Seq<char>>(true),
            ) {
                Some(message) => is_refusal(r, message) && final(self)@ == old(self)@,
                None => r is Ok && final(self)@ == admitted(
                    old(self)@,
                    transaction@,
                    timestamp,
                ),
            },
    {
        let valid = match transaction.is_valid() {
            Ok(true) => true,
            _ => false,
        };
        self.accept(transaction, valid, timestamp)
    }

    /// Admits or refuses a transaction, with a flush, where one is due,
    /// made now.
    pub fn add_transaction(&mut self, transaction: Transaction) -> (r: Result<(), BlockchainError>)
        requires
            old(self)@.well_formed(),
        ensures
            final(self)@.well_formed(),
            match rejection(
                old(self)@,
                transaction@,
                transaction_validity(transaction@) == Ok::<bool, Seq<char>>(true),
            ) {
                Some(message) => is_refusal(r, message) && final(self)@ == old(self)@,
                None => r is Ok && exists|timestamp: i64|
                    final(self)@ == #[trigger] admitted(old(self)@, transaction@, timestamp),
            },
    {
        self.add_transaction_at(transaction, now())
    }

    fn holds_genesis_for(block: &Block, addresses: &Vec<String>) -> (r: bool)
        ensures
            r == is_genesis_for(block@, address_views(addresses@)),
    {
        let follows_void = match &block.previous {
            Some(p) => *p == VOID_HASH.to_owned(),
            None => false,
        };
        if !follows_void || block.timestamp != 0 || block.transactions.len() != addresses.len() {
            return false;
        }
        let void = VOID_ADDRESS.to_owned();
        let mut i: usize = 0;
        while i < addresses.len()
            invariant
                i <= addresses.len(),
                block.transactions.len() == addresses.len(),
                void@ == void_address(),
                forall|j: int|
                    0 <= j < i ==> is_mint_to(
                        #[trigger] block@.transactions[j],
                        address_views(addresses@)[j],
                    ),
            decreases addresses.len() - i,
        {
            let t = &block.transactions[i];
            assert(block@.transactions[i as int] == t@);
            assert(address_views(addresses@)[i as int] == addresses@[i as int]@);
            if !(t.from == void && t.to == addresses[i] && t.amount == 1 && t.signature.is_none()) {
                return false;
            }
            i += 1;
        }
        block.has_own_hash()
    }

    /// Audits the whole chain against the registered addresses: whether it
    /// starts with their genesis block, in their order, and every later
    /// block follows the one before it, holds only valid transactions and
    /// carries the hash of its contents.
    pub fn is_valid(&self, registered_addresses: Box<Vec<String>>) -> (r: bool)
        requires
            self@.well_formed(),
        ensures
            r == chain_valid(self@.chain, address_views(registered_addresses@)),
    {
        if !BlockChain::holds_genesis_for(&self.chain[0], &registered_addresses) {
            return false;
        }
        let ghost chain = self@.chain;
        let mut i: usize = 1;
        while i < self.chain.len()
            invariant
                1 <= i <= self.chain.len(),
                chain == block_views(self.chain@),
                forall|j: int| 1 <= j < i ==> #[trigger] follows(chain, j),
            decreases self.chain.len() - i,
        {
            let current_block = &self.chain[i];
            let prev_block = &self.chain[i - 1];
            assert(chain[i as int] == current_block@ && chain[i - 1] == prev_block@);
            if !same_text(&prev_block.hash, &current_block.previous) || !current_block.is_valid()
                || !current_block.has_own_hash() {
                assert(!follows(chain, i as int));
                return false;
            }
            assert(follows(chain, i as int));
            i += 1;
        }
        true
    }

    /// Commits what is pending in a block made at `timestamp`, and writes
    /// the chain in wire format.
    pub fn serialize_at(&mut self, timestamp: i64) -> (text: String)
        requires
            old(self)@.well_formed(),
        ensures
            final(self)@ == committed(old(self)@, timestamp),
            final(self)@.well_formed(),
            text@ == json_chain(final(self)@.chain),
    {
        if self.transaction_buffer.len() > 0 {
            self.create_block_from_buffer_at(timestamp);
            self.transaction_buffer.clear();
            assert(transaction_views(self.transaction_buffer@) =~= Seq::empty());
        }
        encode_chain(&self.chain)
    }

    /// Commits what is pending in a block made now, and writes the chain in
    /// wire format.
    pub fn serialize(&mut self) -> (text: String)
        requires
            old(self)@.well_formed(),
        ensures
            exists|timestamp: i64| final(self)@ == #[trigger] committed(old(self)@, timestamp),
            final(self)@.well_formed(),
            text@ == json_chain(final(self)@.chain),
    {
        self.serialize_at(now())
    }

    /// Loads the chain that `json` is the wire format of. A text that is
    /// not the wire format of a chain with at least one block changes
    /// nothing, and nothing reports it.
    pub fn deserialize(&mut self, json: String)
        requires
            old(self)@.well_formed(),
        ensures
            final(self)@ == deserialized(old(self)@, json@),
            final(self)@.well_formed(),
    {
        match decode_chain_text(json.as_str()) {
            Some(chain) => {
                if chain.len() > 0 {
                    self.chain = chain;
                }
            },
            None => {},
        }
    }

    /// The ledger of no addresses, given `s` to load.
    pub fn from_string(s: String) -> (ledger: BlockChain)
        ensures
            ledger@ == deserialized(
                LedgerView {
                    chain: seq![genesis_block(Seq::empty(), 0)],
                    pending: Seq::empty(),
                },
                s@,
            ),
            ledger@.well_formed(),
    {
        let addresses: Vec<String> = Vec::new();
        assert(address_views(addresses@) =~= Seq::empty());
        let mut bc = BlockChain::new_at(Box::new(addresses), 0);
        bc.deserialize(s);
        bc
    }
}

} // verus!
