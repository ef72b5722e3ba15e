//! What holds of the ledger whatever it is given: the laws that its
//! operations obey together, stated over what they hold and proved.

use vstd::prelude::*;
use crate::block::{all_valid, block_hash, is_sealed, BlockView};
use crate::chain::{
    admitted, chain_balance, chain_valid, committed, deserialized, flushed, follows, genesis_block,
    genesis_transactions, is_genesis_for, is_mint_to, mint, next_block, rejection,
    settled_balance, transactions_balance, LedgerView, BUFFER_LIMIT,
};
use crate::codec::{
    decode_chain, json_chain, lemma_decode_chain_is_exact, lemma_decode_of_json_chain,
};
use crate::transaction::{
    transaction_hash, transaction_validity, void_address, TransactionView,
};

verus! {

/// The hash of a transaction is a function of its sender, receiver, amount
/// and timestamp: transactions that agree on these have the same hash,
/// whatever their signatures.
pub proof fn law_transaction_hash_is_determined(a: TransactionView, b: TransactionView)
    requires
        a.from == b.from,
        a.to == b.to,
        a.amount == b.amount,
        a.timestamp == b.timestamp,
    ensures
        transaction_hash(a) == transaction_hash(b),
{
}

/// The hash of a block is a function of its previous hash, timestamp and
/// transactions: blocks that agree on these have the same hash.
pub proof fn law_block_hash_is_determined(a: BlockView, b: BlockView)
    requires
        a.previous == b.previous,
        a.timestamp == b.timestamp,
        a.transactions == b.transactions,
    ensures
        block_hash(a) == block_hash(b),
{
}

/// A transaction from the void address is valid, signed or not.
pub proof fn law_mint_is_valid(t: TransactionView)
    requires
        t.from == void_address(),
    ensures
        transaction_validity(t) == Ok::<bool, Seq<char>>(true),
{
}

/// The genesis block of a list of addresses is a genesis block for that
/// list, and for no other: not for the same addresses in another order.
pub proof fn law_genesis_fixes_the_order(
    created: Seq<Seq<char>>,
    audited: Seq<Seq<char>>,
    timestamp: i64,
)
    ensures
        is_genesis_for(genesis_block(created, timestamp), audited) <==> created == audited,
{
    let b = genesis_block(created, timestamp);
    assert(is_sealed(b));
    if is_genesis_for(b, audited) {
        assert forall|i: int| 0 <= i < created.len() implies created[i] == audited[i] by {
            assert(is_mint_to(b.transactions[i], audited[i]));
        }
        assert(created =~= audited);
    }
    if created == audited {
        assert forall|i: int| 0 <= i < audited.len() implies is_mint_to(
            #[trigger] b.transactions[i],
            audited[i],
        ) by {}
    }
}

/// A new ledger passes the audit against a list of addresses exactly when
/// it was created from that list, in that order.
pub proof fn law_audit_is_order_sensitive(
    created: Seq<Seq<char>>,
    audited: Seq<Seq<char>>,
    timestamp: i64,
)
    ensures
        chain_valid(seq![genesis_block(created, timestamp)], audited) <==> created == audited,
{
    law_genesis_fixes_the_order(created, audited, timestamp);
}

/// How many times `address` stands in `addresses`.
pub open spec fn occurrences(addresses: Seq<Seq<char>>, address: Seq<char>) -> int
    decreases addresses.len(),
{
    if addresses.len() == 0 {
        0
    } else {
        occurrences(addresses.drop_last(), address) + (if addresses.last() == address {
            1int
        } else {
            0int
        })
    }
}

proof fn lemma_genesis_transactions_balance(
    addresses: Seq<Seq<char>>,
    timestamp: i64,
    address: Seq<char>,
)
    ensures
        transactions_balance(genesis_transactions(addresses, timestamp), address) == occurrences(
            addresses,
            address,
        ) - (if address == void_address() {
            addresses.len() as int
        } else {
            0
        }),
    decreases addresses.len(),
{
    let txs = genesis_transactions(addresses, timestamp);
    if addresses.len() > 0 {
        lemma_genesis_transactions_balance(addresses.drop_last(), timestamp, address);
        assert(txs.drop_last() =~= genesis_transactions(addresses.drop_last(), timestamp));
        assert(txs.last() == mint(addresses.last(), timestamp));
    }
}

/// In a new ledger the balance of an address is the number of times it was
/// registered, and the void address is in debt by the number of mints.
pub proof fn law_genesis_balances(addresses: Seq<Seq<char>>, timestamp: i64, address: Seq<char>)
    ensures
        chain_balance(seq![genesis_block(addresses, timestamp)], address) == occurrences(
            addresses,
            address,
        ) - (if address == void_address() {
            addresses.len() as int
        } else {
            0
        }),
{
    let chain = seq![genesis_block(addresses, timestamp)];
    lemma_genesis_transactions_balance(addresses, timestamp, address);
    assert(chain.drop_last() =~= Seq::<BlockView>::empty());
    assert(chain_balance(chain.drop_last(), address) == 0);
    assert(chain.last() == genesis_block(addresses, timestamp));
}

proof fn lemma_occurrences_of_copies(n: nat, address: Seq<char>, other: Seq<char>)
    requires
        other != address,
    ensures
        occurrences(Seq::new(n, |i: int| address), address) == n,
        occurrences(Seq::new(n, |i: int| address), other) == 0,
    decreases n,
{
    let copies = Seq::new(n, |i: int| address);
    if n > 0 {
        lemma_occurrences_of_copies((n - 1) as nat, address, other);
        assert(copies.drop_last() =~= Seq::new((n - 1) as nat, |i: int| address));
    }
}

/// A ledger created from `n` registrations of one address holds `n` for
/// that address and `-n` for the void address.
pub proof fn law_mints_to_one_address(n: nat, address: Seq<char>, timestamp: i64)
    requires
        address != void_address(),
    ensures
        chain_balance(
            seq![genesis_block(Seq::new(n, |i: int| address), timestamp)],
            address,
        ) == n,
        chain_balance(
            seq![genesis_block(Seq::new(n, |i: int| address), timestamp)],
            void_address(),
        ) == -(n as int),
{
    let addresses = Seq::new(n, |i: int| address);
    lemma_occurrences_of_copies(n, address, void_address());
    law_genesis_balances(addresses, timestamp, address);
    law_genesis_balances(addresses, timestamp, void_address());
}

/// A transaction that joins a buffer with room in it leaves the chain as
/// it was, and with it every settled balance.
pub proof fn law_buffer_is_opaque(
    l: LedgerView,
    t: TransactionView,
    timestamp: i64,
    address: Seq<char>,
)
    requires
        l.pending.len() < BUFFER_LIMIT,
    ensures
        admitted(l, t, timestamp).chain == l.chain,
        admitted(l, t, timestamp).pending == l.pending.push(t),
        settled_balance(admitted(l, t, timestamp).chain, address) == settled_balance(
            l.chain,
            address,
        ),
{
}

/// A transaction that meets a full buffer has exactly one block appended,
/// which holds the transactions that were pending, and is then alone in
/// the buffer.
pub proof fn law_full_buffer_is_flushed(l: LedgerView, t: TransactionView, timestamp: i64)
    requires
        l.pending.len() == BUFFER_LIMIT,
    ensures
        admitted(l, t, timestamp).chain.len() == l.chain.len() + 1,
        admitted(l, t, timestamp).chain.drop_last() == l.chain,
        admitted(l, t, timestamp).chain.last().transactions == l.pending,
        admitted(l, t, timestamp).pending == seq![t],
{
    assert(admitted(l, t, timestamp).chain.drop_last() =~= l.chain);
}

/// Whether the ledger is sound for the addresses: its chain is intact, and
/// every pending transaction is valid.
pub open spec fn ledger_sound(l: LedgerView, addresses: Seq<Seq<char>>) -> bool {
    chain_valid(l.chain, addresses) && all_valid(l.pending)
}

proof fn lemma_next_block_keeps_chain_valid(
    l: LedgerView,
    timestamp: i64,
    addresses: Seq<Seq<char>>,
)
    requires
        ledger_sound(l, addresses),
    ensures
        chain_valid(l.chain.push(next_block(l, timestamp)), addresses),
{
    let longer = l.chain.push(next_block(l, timestamp));
    assert(is_sealed(next_block(l, timestamp)));
    assert forall|i: int| 1 <= i < longer.len() implies #[trigger] follows(longer, i) by {
        if i < l.chain.len() {
            assert(follows(l.chain, i));
        }
    }
}

/// A new ledger is sound for the addresses it was created from.
pub proof fn law_new_ledger_is_sound(addresses: Seq<Seq<char>>, timestamp: i64)
    ensures
        ledger_sound(
            LedgerView { chain: seq![genesis_block(addresses, timestamp)], pending: Seq::empty() },
            addresses,
        ),
{
    law_genesis_fixes_the_order(addresses, addresses, timestamp);
}

/// Admitting a transaction keeps a sound ledger sound.
pub proof fn law_admission_keeps_soundness(
    l: LedgerView,
    t: TransactionView,
    timestamp: i64,
    addresses: Seq<Seq<char>>,
)
    requires
        ledger_sound(l, addresses),
        rejection(l, t, transaction_validity(t) == Ok::<bool, Seq<char>>(true)) is None,
    ensures
        ledger_sound(admitted(l, t, timestamp), addresses),
{
    lemma_next_block_keeps_chain_valid(l, timestamp, addresses);
}

/// A flush keeps a sound ledger sound, and so does a commit.
pub proof fn law_flush_keeps_soundness(l: LedgerView, timestamp: i64, addresses: Seq<Seq<char>>)
    requires
        ledger_sound(l, addresses),
    ensures
        ledger_sound(flushed(l, timestamp), addresses),
        ledger_sound(committed(l, timestamp), addresses),
{
    lemma_next_block_keeps_chain_valid(l, timestamp, addresses);
}

/// The wire format loses nothing: the text of a chain is read back as that
/// chain, and a text is read as a chain only if it is that chain's text.
pub proof fn law_wire_format_is_exact(text: Seq<char>, chain: Seq<BlockView>)
    ensures
        decode_chain(json_chain(chain)) == Some(chain),
        decode_chain(text) == Some(chain) <==> text == json_chain(chain),
{
    lemma_decode_of_json_chain(chain);
    lemma_decode_chain_is_exact(text);
}

/// What a ledger writes, any ledger reads back: after a commit, loading the
/// written text gives the same chain.
pub proof fn law_saved_chain_is_restored(l: LedgerView, reader: LedgerView, timestamp: i64)
    requires
        l.well_formed(),
    ensures
        deserialized(reader, json_chain(committed(l, timestamp).chain)).chain == committed(
            l,
            timestamp,
        ).chain,
{
    lemma_decode_of_json_chain(committed(l, timestamp).chain);
}

/// A sound ledger that is saved and loaded again passes the audit against
/// its addresses.
pub proof fn law_restored_chain_passes_audit(
    l: LedgerView,
    reader: LedgerView,
    timestamp: i64,
    addresses: Seq<Seq<char>>,
)
    requires
        l.well_formed(),
        ledger_sound(l, addresses),
    ensures
        chain_valid(
            deserialized(reader, json_chain(committed(l, timestamp).chain)).chain,
            addresses,
        ),
{
    law_saved_chain_is_restored(l, reader, timestamp);
    law_flush_keeps_soundness(l, timestamp, addresses);
}

/// A text that is not the wire format of a chain changes nothing in the
/// ledger that is given it to load.
pub proof fn law_malformed_text_changes_nothing(l: LedgerView, text: Seq<char>)
    requires
        decode_chain(text) is None,
    ensures
        deserialized(l, text) == l,
{
}

} // verus!
