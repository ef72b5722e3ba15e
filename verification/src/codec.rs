//! The chain's wire format: compact JSON with the fields of each object in a
//! fixed order. Blocks are hashed over this text, and a ledger is stored as it.
//!
//! `json_chain` says what is written. `decode_chain` says what is read: it
//! accepts exactly the texts that `json_chain` writes, which the two laws at
//! the end of the specification part state.

use vstd::prelude::*;
use vstd::string::StringExecFns;
use crate::block::{block_views, Block, BlockView};
use crate::json::{
    eat, eat_at, json_opt_string, json_string, lemma_read_decimal_complete,
    lemma_read_decimal_sound, lemma_read_opt_string_complete, lemma_read_opt_string_sound,
    lemma_read_string_complete, lemma_read_string_sound, parse_decimal, parse_opt_string,
    parse_string, push_json_opt_string, push_json_string, read_decimal, read_opt_string,
    read_string,
};
use crate::text::{chars_of, decimal, push_decimal};
use crate::transaction::{transaction_views, Transaction, TransactionView};

verus! {

/// How a transaction object begins.
pub open spec fn key_from() -> Seq<char> {
    "{\"from\":"@
}

/// What stands between `from` and `to`.
pub open spec fn key_to() -> Seq<char> {
    ",\"to\":"@
}

/// What stands between `to` and `amount`.
pub open spec fn key_amount() -> Seq<char> {
    ",\"amount\":"@
}

/// What stands in front of a timestamp.
pub open spec fn key_timestamp() -> Seq<char> {
    ",\"timestamp\":"@
}

/// What stands between `timestamp` and `signature`.
pub open spec fn key_signature() -> Seq<char> {
    ",\"signature\":"@
}

/// How a block object begins.
pub open spec fn key_previous() -> Seq<char> {
    "{\"previous\":"@
}

/// What stands between `timestamp` and `transactions`.
pub open spec fn key_transactions() -> Seq<char> {
    ",\"transactions\":"@
}

/// What stands between `transactions` and `hash`.
pub open spec fn key_hash() -> Seq<char> {
    ",\"hash\":"@
}

/// A transaction as an object: `from`, `to`, `amount`, `timestamp`, `signature`.
pub open spec fn json_transaction(t: TransactionView) -> Seq<char> {
    key_from() + (json_string(t.from) + (key_to() + (json_string(t.to) + (key_amount() + (decimal(
        t.amount as int,
    ) + (key_timestamp() + (decimal(t.timestamp as int) + (key_signature() + (json_opt_string(
        t.signature,
    ) + seq!['}'])))))))))
}

/// The items' texts with a comma between each two.
pub open spec fn json_items<T>(items: Seq<T>, enc: spec_fn(T) -> Seq<char>) -> Seq<char>
    decreases items.len(),
{
    if items.len() == 0 {
        Seq::empty()
    } else if items.len() == 1 {
        enc(items[0])
    } else {
        enc(items[0]) + seq![','] + json_items(items.skip(1), enc)
    }
}

/// The items as an array.
pub open spec fn json_list<T>(items: Seq<T>, enc: spec_fn(T) -> Seq<char>) -> Seq<char> {
    seq!['['] + json_items(items, enc) + seq![']']
}

/// Transactions as an array of objects.
pub open spec fn json_transactions(txs: Seq<TransactionView>) -> Seq<char> {
    json_list(txs, |t: TransactionView| json_transaction(t))
}

/// A block as an object: `previous`, `timestamp`, `transactions`, `hash`.
pub open spec fn json_block(b: BlockView) -> Seq<char> {
    key_previous() + (json_opt_string(b.previous) + (key_timestamp() + (decimal(
        b.timestamp as int,
    ) + (key_transactions() + (json_transactions(b.transactions) + (key_hash() + (json_opt_string(
        b.hash,
    ) + seq!['}'])))))))
}

/// A chain as an array of blocks.
pub open spec fn json_chain(chain: Seq<BlockView>) -> Seq<char> {
    json_list(chain, |b: BlockView| json_block(b))
}

/// After a value has been read, takes `lit` from what follows it.
pub open spec fn then_eat<T>(r: Option<(T, Seq<char>)>, lit: Seq<char>) -> Option<
    (T, Seq<char>),
> {
    match r {
        Some((v, rest)) => match eat(rest, lit) {
            Some(after) => Some((v, after)),
            None => None,
        },
        None => None,
    }
}

/// Reads a transaction object.
pub open spec fn read_transaction(s: Seq<char>) -> Option<(TransactionView, Seq<char>)> {
    match eat(s, key_from()) {
        Some(s1) => match then_eat(read_string(s1), key_to()) {
            Some((from, s2)) => match then_eat(read_string(s2), key_amount()) {
                Some((to, s3)) => match then_eat(read_decimal(s3), key_timestamp()) {
                    Some((amount, s4)) => match then_eat(read_decimal(s4), key_signature()) {
                        Some((timestamp, s5)) => match then_eat(read_opt_string(s5), seq!['}']) {
                            Some((signature, rest)) => Some(
                                (TransactionView { from, to, amount, timestamp, signature }, rest),
                            ),
                            None => None,
                        },
                        None => None,
                    },
                    None => None,
                },
                None => None,
            },
            None => None,
        },
        None => None,
    }
}

/// Reads one item and what follows it in an array: a comma and more items,
/// or the closing bracket.
pub open spec fn read_items<T>(
    s: Seq<char>,
    read: spec_fn(Seq<char>) -> Option<(T, Seq<char>)>,
) -> Option<(Seq<T>, Seq<char>)>
    decreases s.len(),
{
    match read(s) {
        Some((v, rest)) => if 0 < rest.len() < s.len() {
            if rest[0] == ']' {
                Some((seq![v], rest.skip(1)))
            } else if rest[0] == ',' {
                match read_items(rest.skip(1), read) {
                    Some((more, after)) => Some((seq![v] + more, after)),
                    None => None,
                }
            } else {
                None
            }
        } else {
            None
        },
        None => None,
    }
}

/// Reads an array.
pub open spec fn read_list<T>(
    s: Seq<char>,
    read: spec_fn(Seq<char>) -> Option<(T, Seq<char>)>,
) -> Option<(Seq<T>, Seq<char>)> {
    if s.len() >= 2 && s[0] == '[' {
        if s[1] == ']' {
            Some((Seq::empty(), s.skip(2)))
        } else {
            read_items(s.skip(1), read)
        }
    } else {
        None
    }
}

/// Reads an array of transaction objects.
pub open spec fn read_transactions(s: Seq<char>) -> Option<(Seq<TransactionView>, Seq<char>)> {
    read_list(s, |t: Seq<char>| read_transaction(t))
}

/// Reads a block object.
pub open spec fn read_block(s: Seq<char>) -> Option<(BlockView, Seq<char>)> {
    match eat(s, key_previous()) {
        Some(s1) => match then_eat(read_opt_string(s1), key_timestamp()) {
            Some((previous, s2)) => match then_eat(read_decimal(s2), key_transactions()) {
                Some((timestamp, s3)) => match then_eat(read_transactions(s3), key_hash()) {
                    Some((transactions, s4)) => match then_eat(read_opt_string(s4), seq!['}']) {
                        Some((hash, rest)) => Some(
                            (BlockView { previous, timestamp, transactions, hash }, rest),
                        ),
                        None => None,
                    },
                    None => None,
                },
                None => None,
            },
            None => None,
        },
        None => None,
    }
}

/// Reads an array of block objects.
pub open spec fn read_blocks(s: Seq<char>) -> Option<(Seq<BlockView>, Seq<char>)> {
    read_list(s, |t: Seq<char>| read_block(t))
}

/// The chain that `s` is the text of, if it is the text of one.
pub open spec fn decode_chain(s: Seq<char>) -> Option<Seq<BlockView>> {
    match read_blocks(s) {
        Some((chain, rest)) => if rest.len() == 0 {
            Some(chain)
        } else {
            None
        },
        None => None,
    }
}

proof fn lemma_eat_sound(s: Seq<char>, lit: Seq<char>)
    ensures
        eat(s, lit) matches Some(rest) ==> s == lit + rest,
{
    if lit.is_prefix_of(s) {
        assert(s == s.subrange(0, lit.len() as int) + s.skip(lit.len() as int));
    }
}

proof fn lemma_eat_complete(lit: Seq<char>, rest: Seq<char>)
    ensures
        eat(lit + rest, lit) == Some(rest),
{
    let s = lit + rest;
    assert(s.subrange(0, lit.len() as int) == lit);
    assert(s.skip(lit.len() as int) == rest);
}

proof fn lemma_keys()
    ensures
        key_from().len() > 0 && key_from()[0] == '{',
        key_previous().len() > 0 && key_previous()[0] == '{',
        key_to().len() > 0 && key_to()[0] == ',',
        key_amount().len() > 0 && key_amount()[0] == ',',
        key_timestamp().len() > 0 && key_timestamp()[0] == ',',
        key_signature().len() > 0 && key_signature()[0] == ',',
        key_transactions().len() > 0 && key_transactions()[0] == ',',
        key_hash().len() > 0 && key_hash()[0] == ',',
{
    reveal_strlit("{\"from\":");
    reveal_strlit("{\"previous\":");
    reveal_strlit(",\"to\":");
    reveal_strlit(",\"amount\":");
    reveal_strlit(",\"timestamp\":");
    reveal_strlit(",\"signature\":");
    reveal_strlit(",\"transactions\":");
    reveal_strlit(",\"hash\":");
}

/// Appending is associative.
proof fn lemma_append_assoc(a: Seq<char>, b: Seq<char>, c: Seq<char>)
    ensures
        (a + b) + c == a + (b + c),
{
    assert((a + b) + c =~= a + (b + c));
}

/// The text of a transaction with `rest` behind it, piece by piece.
spec fn json_transaction_then(t: TransactionView, rest: Seq<char>) -> Seq<char> {
    key_from() + (json_string(t.from) + (key_to() + (json_string(t.to) + (key_amount() + (decimal(
        t.amount as int,
    ) + (key_timestamp() + (decimal(t.timestamp as int) + (key_signature() + (json_opt_string(
        t.signature,
    ) + (seq!['}'] + rest))))))))))
}

proof fn lemma_json_transaction_then(t: TransactionView, rest: Seq<char>)
    ensures
        json_transaction(t) + rest == json_transaction_then(t, rest),
{
    let a10 = seq!['}'];
    let a9 = json_opt_string(t.signature);
    let a8 = key_signature();
    let a7 = decimal(t.timestamp as int);
    let a6 = key_timestamp();
    let a5 = decimal(t.amount as int);
    let a4 = key_amount();
    let a3 = json_string(t.to);
    let a2 = key_to();
    let a1 = json_string(t.from);
    let a0 = key_from();
    let e9 = a9 + a10;
    let e8 = a8 + e9;
    let e7 = a7 + e8;
    let e6 = a6 + e7;
    let e5 = a5 + e6;
    let e4 = a4 + e5;
    let e3 = a3 + e4;
    let e2 = a2 + e3;
    let e1 = a1 + e2;
    lemma_append_assoc(a9, a10, rest);
    lemma_append_assoc(a8, e9, rest);
    lemma_append_assoc(a7, e8, rest);
    lemma_append_assoc(a6, e7, rest);
    lemma_append_assoc(a5, e6, rest);
    lemma_append_assoc(a4, e5, rest);
    lemma_append_assoc(a3, e4, rest);
    lemma_append_assoc(a2, e3, rest);
    lemma_append_assoc(a1, e2, rest);
    lemma_append_assoc(a0, e1, rest);
}

/// What `read_transaction` accepts is the text of the transaction and the text behind it.
proof fn lemma_read_transaction_sound(s: Seq<char>)
    ensures
        read_transaction(s) matches Some((t, rest)) ==> s == json_transaction(t) + rest,
{
    if let Some((t, rest)) = read_transaction(s) {
        let s1 = eat(s, key_from())->0;
        lemma_eat_sound(s, key_from());
        lemma_read_string_sound(s1);
        let (_, m1) = read_string(s1)->0;
        lemma_eat_sound(m1, key_to());
        let s2 = eat(m1, key_to())->0;
        lemma_read_string_sound(s2);
        let (_, m2) = read_string(s2)->0;
        lemma_eat_sound(m2, key_amount());
        let s3 = eat(m2, key_amount())->0;
        lemma_read_decimal_sound(s3);
        let (_, m3) = read_decimal(s3)->0;
        lemma_eat_sound(m3, key_timestamp());
        let s4 = eat(m3, key_timestamp())->0;
        lemma_read_decimal_sound(s4);
        let (_, m4) = read_decimal(s4)->0;
        lemma_eat_sound(m4, key_signature());
        let s5 = eat(m4, key_signature())->0;
        lemma_read_opt_string_sound(s5);
        let (_, m5) = read_opt_string(s5)->0;
        lemma_eat_sound(m5, seq!['}']);
        lemma_json_transaction_then(t, rest);
    }
}

/// The text of a transaction is read back, whatever follows it.
proof fn lemma_read_transaction_complete(t: TransactionView, rest: Seq<char>)
    ensures
        read_transaction(json_transaction(t) + rest) == Some((t, rest)),
        json_transaction(t).len() > 0,
        json_transaction(t)[0] == '{',
{
    lemma_keys();
    lemma_json_transaction_then(t, rest);
    let m5 = seq!['}'] + rest;
    let s5 = json_opt_string(t.signature) + m5;
    let m4 = key_signature() + s5;
    let s4 = decimal(t.timestamp as int) + m4;
    let m3 = key_timestamp() + s4;
    let s3 = decimal(t.amount as int) + m3;
    let m2 = key_amount() + s3;
    let s2 = json_string(t.to) + m2;
    let m1 = key_to() + s2;
    let s1 = json_string(t.from) + m1;
    lemma_eat_complete(key_from(), s1);
    lemma_read_string_complete(t.from, m1);
    lemma_eat_complete(key_to(), s2);
    lemma_read_string_complete(t.to, m2);
    lemma_eat_complete(key_amount(), s3);
    lemma_read_decimal_complete(t.amount, m3);
    lemma_eat_complete(key_timestamp(), s4);
    lemma_read_decimal_complete(t.timestamp, m4);
    lemma_eat_complete(key_signature(), s5);
    lemma_read_opt_string_complete(t.signature, m5);
    lemma_eat_complete(seq!['}'], rest);
}

/// What `read_items` accepts is the items' texts, the closing bracket and
/// the text behind it, if the item reader is sound.
proof fn lemma_read_items_sound<T>(
    s: Seq<char>,
    enc: spec_fn(T) -> Seq<char>,
    read: spec_fn(Seq<char>) -> Option<(T, Seq<char>)>,
)
    requires
        forall|t: Seq<char>| #[trigger] read(t) matches Some((v, rest)) ==> t == enc(v) + rest,
    ensures
        read_items(s, read) matches Some((items, rest)) ==> items.len() > 0 && s == json_items(
            items,
            enc,
        ) + seq![']'] + rest,
    decreases s.len(),
{
    if let Some((v, rest)) = read(s) {
        if 0 < rest.len() < s.len() {
            if rest[0] == ']' {
                assert(rest == seq![']'] + rest.skip(1));
                assert(s == json_items(seq![v], enc) + seq![']'] + rest.skip(1));
            } else if rest[0] == ',' {
                lemma_read_items_sound(rest.skip(1), enc, read);
                if let Some((more, after)) = read_items(rest.skip(1), read) {
                    let items = seq![v] + more;
                    assert(items.skip(1) == more);
                    assert(items[0] == v);
                    assert(rest == seq![','] + rest.skip(1));
                    assert(s == json_items(items, enc) + seq![']'] + after);
                }
            }
        }
    }
}

/// The items' texts and the closing bracket are read back, if the item
/// reader reads an item's text back and no item's text is empty.
proof fn lemma_read_items_complete<T>(
    items: Seq<T>,
    rest: Seq<char>,
    enc: spec_fn(T) -> Seq<char>,
    read: spec_fn(Seq<char>) -> Option<(T, Seq<char>)>,
)
    requires
        items.len() > 0,
        forall|v: T, r: Seq<char>| #[trigger] read(enc(v) + r) == Some((v, r)),
        forall|v: T| (#[trigger] enc(v)).len() > 0,
    ensures
        read_items(json_items(items, enc) + seq![']'] + rest, read) == Some((items, rest)),
    decreases items.len(),
{
    let s = json_items(items, enc) + seq![']'] + rest;
    let v = items[0];
    if items.len() == 1 {
        let r = seq![']'] + rest;
        assert(s == enc(v) + r);
        assert(read(enc(v) + r) == Some((v, r)));
        assert(r.skip(1) == rest);
        assert(seq![v] == items);
    } else {
        let tail = json_items(items.skip(1), enc) + seq![']'] + rest;
        let r = seq![','] + tail;
        assert(s == enc(v) + r);
        assert(read(enc(v) + r) == Some((v, r)));
        assert(r.skip(1) == tail);
        lemma_read_items_complete(items.skip(1), rest, enc, read);
        assert(seq![v] + items.skip(1) == items);
    }
}

/// What `read_list` accepts is the text of the array and the text behind it.
proof fn lemma_read_list_sound<T>(
    s: Seq<char>,
    enc: spec_fn(T) -> Seq<char>,
    read: spec_fn(Seq<char>) -> Option<(T, Seq<char>)>,
)
    requires
        forall|t: Seq<char>| #[trigger] read(t) matches Some((v, rest)) ==> t == enc(v) + rest,
    ensures
        read_list(s, read) matches Some((items, rest)) ==> s == json_list(items, enc) + rest,
{
    if s.len() >= 2 && s[0] == '[' {
        if s[1] == ']' {
            assert(s == json_list(Seq::<T>::empty(), enc) + s.skip(2));
        } else {
            lemma_read_items_sound(s.skip(1), enc, read);
            if let Some((items, rest)) = read_items(s.skip(1), read) {
                assert(s == seq!['['] + s.skip(1));
                assert(s == json_list(items, enc) + rest);
            }
        }
    }
}

/// The text of an array is read back, whatever follows it, if the item
/// reader reads an item's text back and no item's text starts with `]`.
proof fn lemma_read_list_complete<T>(
    items: Seq<T>,
    rest: Seq<char>,
    enc: spec_fn(T) -> Seq<char>,
    read: spec_fn(Seq<char>) -> Option<(T, Seq<char>)>,
)
    requires
        forall|v: T, r: Seq<char>| #[trigger] read(enc(v) + r) == Some((v, r)),
        forall|v: T| (#[trigger] enc(v)).len() > 0 && enc(v)[0] != ']',
    ensures
        read_list(json_list(items, enc) + rest, read) == Some((items, rest)),
{
    let s = json_list(items, enc) + rest;
    assert(s[0] == '[');
    if items.len() == 0 {
        assert(s[1] == ']');
        assert(s.skip(2) == rest);
        assert(items == Seq::<T>::empty());
    } else {
        let body = json_items(items, enc);
        assert(body.len() > 0 && body[0] == enc(items[0])[0]);
        assert(s[1] == body[0]);
        assert(s.skip(1) == body + seq![']'] + rest);
        lemma_read_items_complete(items, rest, enc, read);
    }
}

/// What `read_transactions` accepts is the text of the transactions and the text behind it.
proof fn lemma_read_transactions_sound(s: Seq<char>)
    ensures
        read_transactions(s) matches Some((txs, rest)) ==> s == json_transactions(txs) + rest,
{
    let enc = |t: TransactionView| json_transaction(t);
    let read = |t: Seq<char>| read_transaction(t);
    assert forall|t: Seq<char>| #[trigger] read(t) matches Some((v, rest)) ==> t == enc(v)
        + rest by {
        lemma_read_transaction_sound(t);
    }
    lemma_read_list_sound(s, enc, read);
}

/// The text of transactions is read back, whatever follows it.
proof fn lemma_read_transactions_complete(txs: Seq<TransactionView>, rest: Seq<char>)
    ensures
        read_transactions(json_transactions(txs) + rest) == Some((txs, rest)),
{
    let enc = |t: TransactionView| json_transaction(t);
    let read = |t: Seq<char>| read_transaction(t);
    assert forall|v: TransactionView, r: Seq<char>| #[trigger] read(enc(v) + r) == Some(
        (v, r),
    ) by {
        lemma_read_transaction_complete(v, r);
    }
    assert forall|v: TransactionView| (#[trigger] enc(v)).len() > 0 && enc(v)[0] != ']' by {
        lemma_read_transaction_complete(v, Seq::empty());
    }
    lemma_read_list_complete(txs, rest, enc, read);
}

/// The text of a block with `rest` behind it, piece by piece.
spec fn json_block_then(b: BlockView, rest: Seq<char>) -> Seq<char> {
    key_previous() + (json_opt_string(b.previous) + (key_timestamp() + (decimal(
        b.timestamp as int,
    ) + (key_transactions() + (json_transactions(b.transactions) + (key_hash() + (json_opt_string(
        b.hash,
    ) + (seq!['}'] + rest))))))))
}

proof fn lemma_json_block_then(b: BlockView, rest: Seq<char>)
    ensures
        json_block(b) + rest == json_block_then(b, rest),
{
    let a8 = seq!['}'];
    let a7 = json_opt_string(b.hash);
    let a6 = key_hash();
    let a5 = json_transactions(b.transactions);
    let a4 = key_transactions();
    let a3 = decimal(b.timestamp as int);
    let a2 = key_timestamp();
    let a1 = json_opt_string(b.previous);
    let a0 = key_previous();
    let e7 = a7 + a8;
    let e6 = a6 + e7;
    let e5 = a5 + e6;
    let e4 = a4 + e5;
    let e3 = a3 + e4;
    let e2 = a2 + e3;
    let e1 = a1 + e2;
    lemma_append_assoc(a7, a8, rest);
    lemma_append_assoc(a6, e7, rest);
    lemma_append_assoc(a5, e6, rest);
    lemma_append_assoc(a4, e5, rest);
    lemma_append_assoc(a3, e4, rest);
    lemma_append_assoc(a2, e3, rest);
    lemma_append_assoc(a1, e2, rest);
    lemma_append_assoc(a0, e1, rest);
}

/// What `read_block` accepts is the text of the block and the text behind it.
proof fn lemma_read_block_sound(s: Seq<char>)
    ensures
        read_block(s) matches Some((b, rest)) ==> s == json_block(b) + rest,
{
    if let Some((b, rest)) = read_block(s) {
        let s1 = eat(s, key_previous())->0;
        lemma_eat_sound(s, key_previous());
        lemma_read_opt_string_sound(s1);
        let (_, m1) = read_opt_string(s1)->0;
        lemma_eat_sound(m1, key_timestamp());
        let s2 = eat(m1, key_timestamp())->0;
        lemma_read_decimal_sound(s2);
        let (_, m2) = read_decimal(s2)->0;
        lemma_eat_sound(m2, key_transactions());
        let s3 = eat(m2, key_transactions())->0;
        lemma_read_transactions_sound(s3);
        let (_, m3) = read_transactions(s3)->0;
        lemma_eat_sound(m3, key_hash());
        let s4 = eat(m3, key_hash())->0;
        lemma_read_opt_string_sound(s4);
        let (_, m4) = read_opt_string(s4)->0;
        lemma_eat_sound(m4, seq!['}']);
        lemma_json_block_then(b, rest);
    }
}

/// The text of a block is read back, whatever follows it.
proof fn lemma_read_block_complete(b: BlockView, rest: Seq<char>)
    ensures
        read_block(json_block(b) + rest) == Some((b, rest)),
        json_block(b).len() > 0,
        json_block(b)[0] == '{',
{
    lemma_keys();
    lemma_json_block_then(b, rest);
    let m4 = seq!['}'] + rest;
    let s4 = json_opt_string(b.hash) + m4;
    let m3 = key_hash() + s4;
    let s3 = json_transactions(b.transactions) + m3;
    let m2 = key_transactions() + s3;
    let s2 = decimal(b.timestamp as int) + m2;
    let m1 = key_timestamp() + s2;
    let s1 = json_opt_string(b.previous) + m1;
    lemma_eat_complete(key_previous(), s1);
    lemma_read_opt_string_complete(b.previous, m1);
    lemma_eat_complete(key_timestamp(), s2);
    lemma_read_decimal_complete(b.timestamp, m2);
    lemma_eat_complete(key_transactions(), s3);
    lemma_read_transactions_complete(b.transactions, m3);
    lemma_eat_complete(key_hash(), s4);
    lemma_read_opt_string_complete(b.hash, m4);
    lemma_eat_complete(seq!['}'], rest);
}

/// Reading a chain's text gives the chain back.
pub proof fn lemma_decode_of_json_chain(chain: Seq<BlockView>)
    ensures
        decode_chain(json_chain(chain)) == Some(chain),
{
    let enc = |b: BlockView| json_block(b);
    let read = |t: Seq<char>| read_block(t);
    assert forall|v: BlockView, r: Seq<char>| #[trigger] read(enc(v) + r) == Some((v, r)) by {
        lemma_read_block_complete(v, r);
    }
    assert forall|v: BlockView| (#[trigger] enc(v)).len() > 0 && enc(v)[0] != ']' by {
        lemma_read_block_complete(v, Seq::empty());
    }
    lemma_read_list_complete(chain, Seq::empty(), enc, read);
    assert(json_chain(chain) + Seq::<char>::empty() == json_chain(chain));
}

/// Only a chain's own text is read as that chain.
pub proof fn lemma_decode_chain_is_exact(s: Seq<char>)
    ensures
        decode_chain(s) matches Some(chain) ==> s == json_chain(chain),
{
    let enc = |b: BlockView| json_block(b);
    let read = |t: Seq<char>| read_block(t);
    assert forall|t: Seq<char>| #[trigger] read(t) matches Some((v, rest)) ==> t == enc(v)
        + rest by {
        lemma_read_block_sound(t);
    }
    lemma_read_list_sound(s, enc, read);
    if let Some((chain, rest)) = read_blocks(s) {
        if rest.len() == 0 {
            assert(json_chain(chain) + rest == json_chain(chain));
        }
    }
}

/// Appends the text of a transaction to `out`.
pub fn push_json_transaction(out: &mut String, t: &Transaction)
    ensures
        final(out)@ == old(out)@ + json_transaction(t@),
{
    let ghost start = out@;
    out.append("{\"from\":");
    let ghost l0 = out@;
    push_json_string(out, t.from.as_str());
    let ghost l1 = out@;
    out.append(",\"to\":");
    let ghost l2 = out@;
    push_json_string(out, t.to.as_str());
    let ghost l3 = out@;
    out.append(",\"amount\":");
    let ghost l4 = out@;
    push_decimal(out, t.amount);
    let ghost l5 = out@;
    out.append(",\"timestamp\":");
    let ghost l6 = out@;
    push_decimal(out, t.timestamp);
    let ghost l7 = out@;
    out.append(",\"signature\":");
    let ghost l8 = out@;
    push_json_opt_string(out, &t.signature);
    let ghost l9 = out@;
    out.push('}');
    proof {
        let v = t@;
        let a10 = seq!['}'];
        let a9 = json_opt_string(v.signature);
        let a8 = key_signature();
        let a7 = decimal(v.timestamp as int);
        let a6 = key_timestamp();
        let a5 = decimal(v.amount as int);
        let a4 = key_amount();
        let a3 = json_string(v.to);
        let a2 = key_to();
        let a1 = json_string(v.from);
        let a0 = key_from();
        let e9 = a9 + a10;
        let e8 = a8 + e9;
        let e7 = a7 + e8;
        let e6 = a6 + e7;
        let e5 = a5 + e6;
        let e4 = a4 + e5;
        let e3 = a3 + e4;
        let e2 = a2 + e3;
        let e1 = a1 + e2;
        assert(out@ == l9 + a10);
        lemma_append_assoc(l8, a9, a10);
        lemma_append_assoc(l7, a8, e9);
        lemma_append_assoc(l6, a7, e8);
        lemma_append_assoc(l5, a6, e7);
        lemma_append_assoc(l4, a5, e6);
        lemma_append_assoc(l3, a4, e5);
        lemma_append_assoc(l2, a3, e4);
        lemma_append_assoc(l1, a2, e3);
        lemma_append_assoc(l0, a1, e2);
        lemma_append_assoc(start, a0, e1);
    }
}

/// The texts of the items from `from` on, as they stand inside an array:
/// with a comma in front of each but the array's first.
spec fn json_items_from<T>(items: Seq<T>, from: int, enc: spec_fn(T) -> Seq<char>) -> Seq<
    char,
> {
    if from >= items.len() {
        Seq::empty()
    } else if from == 0 {
        json_items(items, enc)
    } else {
        seq![','] + json_items(items.skip(from), enc)
    }
}

proof fn lemma_json_items_from_step<T>(items: Seq<T>, from: int, enc: spec_fn(T) -> Seq<char>)
    requires
        0 <= from < items.len(),
    ensures
        json_items_from(items, from, enc) == (if from == 0 {
            Seq::<char>::empty()
        } else {
            seq![',']
        }) + (enc(items[from]) + json_items_from(items, from + 1, enc)),
{
    let tail = items.skip(from);
    assert(tail[0] == items[from]);
    assert(tail.skip(1) == items.skip(from + 1));
    assert(items.skip(0) == items);
    let here = json_items(tail, enc);
    let next = json_items_from(items, from + 1, enc);
    if tail.len() == 1 {
        assert(here == enc(items[from]) + next);
    } else {
        lemma_append_assoc(enc(items[from]), seq![','], json_items(tail.skip(1), enc));
        assert(here == enc(items[from]) + next);
    }
    if from == 0 {
        assert(Seq::<char>::empty() + here == here);
    }
}

/// Appends the text of the transactions, as an array, to `out`.
pub fn push_json_transactions(out: &mut String, txs: &Vec<Transaction>)
    ensures
        final(out)@ == old(out)@ + json_transactions(transaction_views(txs@)),
{
    let ghost start = out@;
    let ghost enc = |t: TransactionView| json_transaction(t);
    let ghost items = transaction_views(txs@);
    out.push('[');
    let mut i: usize = 0;
    assert(out@ + json_items_from(items, 0, enc) == start + (seq!['['] + json_items(items, enc)))
        by {
        lemma_append_assoc(start, seq!['['], json_items(items, enc));
    }
    while i < txs.len()
        invariant
            i <= txs.len(),
            items == transaction_views(txs@),
            enc == |t: TransactionView| json_transaction(t),
            out@ + json_items_from(items, i as int, enc) == start + (seq!['['] + json_items(
                items,
                enc,
            )),
        decreases txs.len() - i,
    {
        let ghost before = out@;
        if i > 0 {
            out.push(',');
        }
        let ghost middle = out@;
        push_json_transaction(out, &txs[i]);
        proof {
            lemma_json_items_from_step(items, i as int, enc);
            let sep = if i == 0 {
                Seq::<char>::empty()
            } else {
                seq![',']
            };
            let item = enc(items[i as int]);
            let next = json_items_from(items, i + 1, enc);
            assert(middle == before + sep);
            assert(item == json_transaction(txs@[i as int]@));
            lemma_append_assoc(before, sep, item + next);
            lemma_append_assoc(middle, item, next);
        }
        i += 1;
    }
    let ghost body = out@;
    out.push(']');
    proof {
        assert(json_items_from(items, i as int, enc) == Seq::<char>::empty());
        assert(body + Seq::<char>::empty() == body);
        lemma_append_assoc(start, seq!['['] + json_items(items, enc), seq![']']);
        lemma_append_assoc(seq!['['], json_items(items, enc), seq![']']);
        assert(out@ == body + seq![']']);
    }
}

/// Appends the text of a block to `out`.
pub fn push_json_block(out: &mut String, b: &Block)
    ensures
        final(out)@ == old(out)@ + json_block(b@),
{
    let ghost start = out@;
    out.append("{\"previous\":");
    let ghost l0 = out@;
    push_json_opt_string(out, &b.previous);
    let ghost l1 = out@;
    out.append(",\"timestamp\":");
    let ghost l2 = out@;
    push_decimal(out, b.timestamp);
    let ghost l3 = out@;
    out.append(",\"transactions\":");
    let ghost l4 = out@;
    push_json_transactions(out, &b.transactions);
    let ghost l5 = out@;
    out.append(",\"hash\":");
    let ghost l6 = out@;
    push_json_opt_string(out, &b.hash);
    let ghost l7 = out@;
    out.push('}');
    proof {
        let v = b@;
        let a8 = seq!['}'];
        let a7 = json_opt_string(v.hash);
        let a6 = key_hash();
        let a5 = json_transactions(v.transactions);
        let a4 = key_transactions();
        let a3 = decimal(v.timestamp as int);
        let a2 = key_timestamp();
        let a1 = json_opt_string(v.previous);
        let a0 = key_previous();
        let e7 = a7 + a8;
        let e6 = a6 + e7;
        let e5 = a5 + e6;
        let e4 = a4 + e5;
        let e3 = a3 + e4;
        let e2 = a2 + e3;
        let e1 = a1 + e2;
        assert(out@ == l7 + a8);
        lemma_append_assoc(l6, a7, a8);
        lemma_append_assoc(l5, a6, e7);
        lemma_append_assoc(l4, a5, e6);
        lemma_append_assoc(l3, a4, e5);
        lemma_append_assoc(l2, a3, e4);
        lemma_append_assoc(l1, a2, e3);
        lemma_append_assoc(l0, a1, e2);
        lemma_append_assoc(start, a0, e1);
    }
}

/// The text of a chain.
pub fn encode_chain(chain: &Vec<Block>) -> (out: String)
    ensures
        out@ == json_chain(block_views(chain@)),
{
    let mut out = String::new();
    let ghost enc = |b: BlockView| json_block(b);
    let ghost items = block_views(chain@);
    out.push('[');
    let mut i: usize = 0;
    assert(out@ == seq!['[']);
    assert(items.skip(0) == items);
    while i < chain.len()
        invariant
            i <= chain.len(),
            items == block_views(chain@),
            enc == |b: BlockView| json_block(b),
            out@ + json_items_from(items, i as int, enc) == seq!['['] + json_items(items, enc),
        decreases chain.len() - i,
    {
        let ghost before = out@;
        if i > 0 {
            out.push(',');
        }
        let ghost middle = out@;
        push_json_block(&mut out, &chain[i]);
        proof {
            lemma_json_items_from_step(items, i as int, enc);
            let sep = if i == 0 {
                Seq::<char>::empty()
            } else {
                seq![',']
            };
            let item = enc(items[i as int]);
            let next = json_items_from(items, i + 1, enc);
            assert(middle == before + sep);
            assert(item == json_block(chain@[i as int]@));
            lemma_append_assoc(before, sep, item + next);
            lemma_append_assoc(middle, item, next);
        }
        i += 1;
    }
    let ghost body = out@;
    out.push(']');
    proof {
        assert(json_items_from(items, i as int, enc) == Seq::<char>::empty());
        assert(body + Seq::<char>::empty() == body);
        assert(out@ == body + seq![']']);
    }
    out
}

/// Reads a transaction object that starts at `pos`.
pub fn parse_transaction(s: &Vec<char>, pos: usize) -> (r: Option<(Transaction, usize)>)
    requires
        pos <= s.len(),
    ensures
        match r {
            Some((t, p)) => read_transaction(s@.skip(pos as int)) == Some((t@, s@.skip(p as int)))
                && pos < p <= s.len(),
            None => read_transaction(s@.skip(pos as int)) is None,
        },
{
    let p0 = match eat_at(s, pos, &chars_of("{\"from\":")) {
        Some(p) => p,
        None => {
            return None;
        },
    };
    let (from, q1) = match parse_string(s, p0) {
        Some(x) => x,
        None => {
            return None;
        },
    };
    let p1 = match eat_at(s, q1, &chars_of(",\"to\":")) {
        Some(p) => p,
        None => {
            return None;
        },
    };
    let (to, q2) = match parse_string(s, p1) {
        Some(x) => x,
        None => {
            return None;
        },
    };
    let p2 = match eat_at(s, q2, &chars_of(",\"amount\":")) {
        Some(p) => p,
        None => {
            return None;
        },
    };
    let (amount, q3) = match parse_decimal(s, p2) {
        Some(x) => x,
        None => {
            return None;
        },
    };
    let p3 = match eat_at(s, q3, &chars_of(",\"timestamp\":")) {
        Some(p) => p,
        None => {
            return None;
        },
    };
    let (timestamp, q4) = match parse_decimal(s, p3) {
        Some(x) => x,
        None => {
            return None;
        },
    };
    let p4 = match eat_at(s, q4, &chars_of(",\"signature\":")) {
        Some(p) => p,
        None => {
            return None;
        },
    };
    let (signature, q5) = match parse_opt_string(s, p4) {
        Some(x) => x,
        None => {
            return None;
        },
    };
    let p5 = match eat_at(s, q5, &chars_of("}")) {
        Some(p) => p,
        None => {
            proof {
                reveal_strlit("}");
                assert("}"@ == seq!['}']);
            }
            return None;
        },
    };
    proof {
        reveal_strlit("}");
        assert("}"@ == seq!['}']);
    }
    Some((Transaction::from_parts(from, to, amount, timestamp, signature), p5))
}

/// Reads an array of transaction objects that starts at `pos`.
pub fn parse_transactions(s: &Vec<char>, pos: usize) -> (r: Option<(Vec<Transaction>, usize)>)
    requires
        pos <= s.len(),
    ensures
        match r {
            Some((txs, p)) => read_transactions(s@.skip(pos as int)) == Some(
                (transaction_views(txs@), s@.skip(p as int)),
            ) && pos < p <= s.len(),
            None => read_transactions(s@.skip(pos as int)) is None,
        },
{
    let ghost t = s@.skip(pos as int);
    let ghost read = |u: Seq<char>| read_transaction(u);
    if s.len() - pos < 2 || s[pos] != '[' {
        return None;
    }
    assert(t[0] == s@[pos as int] && t[1] == s@[pos + 1]);
    let mut out: Vec<Transaction> = Vec::new();
    if s[pos + 1] == ']' {
        assert(t.skip(2) == s@.skip(pos + 2));
        assert(transaction_views(out@) == Seq::<TransactionView>::empty());
        return Some((out, pos + 2));
    }
    let mut i: usize = pos + 1;
    assert(t.skip(1) == s@.skip(i as int));
    let ghost goal = read_items(s@.skip(i as int), read);
    assert(Seq::<TransactionView>::empty() + Seq::<TransactionView>::empty() == Seq::<
        TransactionView,
    >::empty());
    loop
        invariant
            pos < i <= s.len(),
            read == |u: Seq<char>| read_transaction(u),
            goal == read_transactions(s@.skip(pos as int)),
            goal == match read_items(s@.skip(i as int), read) {
                Some((more, rest)) => Some((transaction_views(out@) + more, rest)),
                None => None,
            },
        decreases s.len() - i,
    {
        let ghost here = s@.skip(i as int);
        let (item, p) = match parse_transaction(s, i) {
            Some(x) => x,
            None => {
                return None;
            },
        };
        let ghost rest = s@.skip(p as int);
        assert(read(here) == Some((item@, rest)));
        if p >= s.len() {
            return None;
        }
        assert(rest[0] == s@[p as int]);
        assert(rest.skip(1) == s@.skip(p + 1));
        let ghost before = transaction_views(out@);
        out.push(item);
        assert(transaction_views(out@) == before.push(item@));
        if s[p] == ']' {
            assert(before + seq![item@] == before.push(item@));
            return Some((out, p + 1));
        } else if s[p] == ',' {
            proof {
                if let Some((more, after)) = read_items(rest.skip(1), read) {
                    assert(before + (seq![item@] + more) == before.push(item@) + more);
                }
            }
            i = p + 1;
        } else {
            return None;
        }
    }
}

/// Reads a block object that starts at `pos`.
pub fn parse_block(s: &Vec<char>, pos: usize) -> (r: Option<(Block, usize)>)
    requires
        pos <= s.len(),
    ensures
        match r {
            Some((b, p)) => read_block(s@.skip(pos as int)) == Some((b@, s@.skip(p as int)))
                && pos < p <= s.len(),
            None => read_block(s@.skip(pos as int)) is None,
        },
{
    let p0 = match eat_at(s, pos, &chars_of("{\"previous\":")) {
        Some(p) => p,
        None => {
            return None;
        },
    };
    let (previous, q1) = match parse_opt_string(s, p0) {
        Some(x) => x,
        None => {
            return None;
        },
    };
    let p1 = match eat_at(s, q1, &chars_of(",\"timestamp\":")) {
        Some(p) => p,
        None => {
            return None;
        },
    };
    let (timestamp, q2) = match parse_decimal(s, p1) {
        Some(x) => x,
        None => {
            return None;
        },
    };
    let p2 = match eat_at(s, q2, &chars_of(",\"transactions\":")) {
        Some(p) => p,
        None => {
            return None;
        },
    };
    let (transactions, q3) = match parse_transactions(s, p2) {
        Some(x) => x,
        None => {
            return None;
        },
    };
    let p3 = match eat_at(s, q3, &chars_of(",\"hash\":")) {
        Some(p) => p,
        None => {
            return None;
        },
    };
    let (hash, q4) = match parse_opt_string(s, p3) {
        Some(x) => x,
        None => {
            return None;
        },
    };
    let p4 = match eat_at(s, q4, &chars_of("}")) {
        Some(p) => p,
        None => {
            proof {
                reveal_strlit("}");
                assert("}"@ == seq!['}']);
            }
            return None;
        },
    };
    proof {
        reveal_strlit("}");
        assert("}"@ == seq!['}']);
    }
    Some((Block { previous, timestamp, transactions: Box::new(transactions), hash }, p4))
}

/// Reads an array of block objects that starts at `pos`.
pub fn parse_blocks(s: &Vec<char>, pos: usize) -> (r: Option<(Vec<Block>, usize)>)
    requires
        pos <= s.len(),
    ensures
        match r {
            Some((blocks, p)) => read_blocks(s@.skip(pos as int)) == Some(
                (block_views(blocks@), s@.skip(p as int)),
            ) && pos < p <= s.len(),
            None => read_blocks(s@.skip(pos as int)) is None,
        },
{
    let ghost t = s@.skip(pos as int);
    let ghost read = |u: Seq<char>| read_block(u);
    if s.len() - pos < 2 || s[pos] != '[' {
        return None;
    }
    assert(t[0] == s@[pos as int] && t[1] == s@[pos + 1]);
    let mut out: Vec<Block> = Vec::new();
    if s[pos + 1] == ']' {
        assert(t.skip(2) == s@.skip(pos + 2));
        assert(block_views(out@) == Seq::<BlockView>::empty());
        return Some((out, pos + 2));
    }
    let mut i: usize = pos + 1;
    assert(t.skip(1) == s@.skip(i as int));
    let ghost goal = read_items(s@.skip(i as int), read);
    assert(Seq::<BlockView>::empty() + Seq::<BlockView>::empty() == Seq::<BlockView>::empty());
    loop
        invariant
            pos < i <= s.len(),
            read == |u: Seq<char>| read_block(u),
            goal == read_blocks(s@.skip(pos as int)),
            goal == match read_items(s@.skip(i as int), read) {
                Some((more, rest)) => Some((block_views(out@) + more, rest)),
                None => None,
            },
        decreases s.len() - i,
    {
        let ghost here = s@.skip(i as int);
        let (item, p) = match parse_block(s, i) {
            Some(x) => x,
            None => {
                return None;
            },
        };
        let ghost rest = s@.skip(p as int);
        assert(read(here) == Some((item@, rest)));
        if p >= s.len() {
            return None;
        }
        assert(rest[0] == s@[p as int]);
        assert(rest.skip(1) == s@.skip(p + 1));
        let ghost before = block_views(out@);
        out.push(item);
        assert(block_views(out@) == before.push(item@));
        if s[p] == ']' {
            assert(before + seq![item@] == before.push(item@));
            return Some((out, p + 1));
        } else if s[p] == ',' {
            proof {
                if let Some((more, after)) = read_items(rest.skip(1), read) {
                    assert(before + (seq![item@] + more) == before.push(item@) + more);
                }
            }
            i = p + 1;
        } else {
            return None;
        }
    }
}

/// The chain that `text` is the text of: `Some` exactly for a text that
/// `encode_chain` writes, and then the chain that it was written from.
pub fn decode_chain_text(text: &str) -> (r: Option<Vec<Block>>)
    ensures
        match r {
            Some(chain) => decode_chain(text@) == Some(block_views(chain@)) && text@
                == json_chain(block_views(chain@)),
            None => decode_chain(text@) is None && forall|c: Seq<BlockView>|
                text@ != #[trigger] json_chain(c),
        },
{
    let s = chars_of(text);
    assert(s@.skip(0) == s@);
    proof {
        lemma_decode_chain_is_exact(text@);
        assert forall|c: Seq<BlockView>| text@ == #[trigger] json_chain(c) implies decode_chain(
            text@,
        ) == Some(c) by {
            lemma_decode_of_json_chain(c);
        }
    }
    match parse_blocks(&s, 0) {
        Some((chain, p)) => {
            if p == s.len() {
                Some(chain)
            } else {
                None
            }
        },
        None => None,
    }
}

} // verus!
