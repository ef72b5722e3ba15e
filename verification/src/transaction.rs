//! A transfer of value between two addresses, and its signature.

use vstd::prelude::*;
use vstd::string::StringExecFns;
use vstd::utf8::encode_utf8;
use crate::clock::now;
use crate::digest::{hash_of_text, hash_text};
use crate::error::BlockchainError;
use crate::keys::{
    address_of, base64_json, base64_json_decoded, check_signature, ed25519_signature, from_base64,
    signature_holds, to_base64, SecretKey,
};
use crate::text::{decimal, push_decimal};

verus! {

/// The address that value is minted from. No key signs for it.
pub const VOID_ADDRESS: &'static str = "0000000000000000";

/// The void address, as characters.
pub open spec fn void_address() -> Seq<char> {
    VOID_ADDRESS@
}

/// What an optional string holds.
pub open spec fn opt_view(s: Option<String>) -> Option<Seq<char>> {
    match s {
        Some(t) => Some(t@),
        None => None,
    }
}

/// A transfer of `amount` from one address to another, made at `timestamp`
/// (seconds), with the sender's signature once it is signed.
#[derive(Debug)]
pub struct Transaction {
    pub from: String,
    pub to: String,
    pub amount: i64,
    pub timestamp: i64,
    pub signature: Option<String>,
}

/// What a transaction holds.
pub ghost struct TransactionView {
    pub from: Seq<char>,
    pub to: Seq<char>,
    pub amount: i64,
    pub timestamp: i64,
    pub signature: Option<Seq<char>>,
}

impl View for Transaction {
    type V = TransactionView;

    open spec fn view(&self) -> TransactionView {
        TransactionView {
            from: self.from@,
            to: self.to@,
            amount: self.amount,
            timestamp: self.timestamp,
            signature: opt_view(self.signature),
        }
    }
}

/// What each transaction of a sequence holds.
pub open spec fn transaction_views(txs: Seq<Transaction>) -> Seq<TransactionView> {
    txs.map_values(|t: Transaction| t@)
}

/// What `sign` answers a key that is not the sender's.
pub open spec fn msg_foreign_wallet() -> Seq<char> {
    "Invalid Transaction:: Cannot sign transactions for other wallets"@
}

/// What `is_valid` answers where there is no signature.
pub open spec fn msg_empty_signature() -> Seq<char> {
    "Invalid Transaction:: Empty signature"@
}

/// What `is_valid` answers where the address or the signature is no text of bytes.
pub open spec fn msg_malformed_signature() -> Seq<char> {
    "Invalid Transaction:: Malformed signature data"@
}

/// The text that a transaction is hashed over: sender, receiver, amount and
/// timestamp, one behind the other. The signature is no part of it.
pub open spec fn transaction_preimage(t: TransactionView) -> Seq<char> {
    t.from + t.to + decimal(t.amount as int) + decimal(t.timestamp as int)
}

/// The hash of a transaction.
pub open spec fn transaction_hash(t: TransactionView) -> Seq<char> {
    hash_text(transaction_preimage(t))
}

/// The bytes that are signed: the hash text, as UTF-8.
pub open spec fn signed_message(t: TransactionView) -> Seq<u8> {
    encode_utf8(transaction_hash(t))
}

/// The signature that `secret_key` gives the transaction, as text.
pub open spec fn signature_text(secret_key: Seq<u8>, t: TransactionView) -> Seq<char> {
    base64_json(ed25519_signature(secret_key, signed_message(t)))
}

/// What the four facts about a transaction's signature amount to: a mint
/// is valid; an unsigned transaction and one whose address or signature
/// cannot be decoded are errors; any other is as valid as its signature.
pub open spec fn verdict(mint: bool, signed: bool, decoded: bool, holds: bool) -> Result<
    bool,
    Seq<char>,
> {
    if mint {
        Ok(true)
    } else if !signed {
        Err(msg_empty_signature())
    } else if !decoded {
        Err(msg_malformed_signature())
    } else {
        Ok(holds)
    }
}

/// Whether a transaction is valid, or the message of the validation error.
pub open spec fn transaction_validity(t: TransactionView) -> Result<bool, Seq<char>> {
    let key = base64_json_decoded(t.from);
    let signature = match t.signature {
        Some(text) => base64_json_decoded(text),
        None => None,
    };
    verdict(
        t.from == void_address(),
        t.signature is Some,
        key is Some && signature is Some,
        key is Some && signature is Some && signature_holds(
            key->0,
            signed_message(t),
            signature->0,
        ),
    )
}

/// Whether `r` is the validity `expected`: the same answer, or a validation
/// error with the same message.
pub open spec fn is_validity(r: Result<bool, BlockchainError>, expected: Result<bool, Seq<char>>)
    -> bool {
    match expected {
        Ok(valid) => r matches Ok(v) && v == valid,
        Err(message) => r matches Err(BlockchainError::ValidationError { content }) && content@
            == message,
    }
}

/// The verdict on a transaction from the four facts about its signature.
pub fn validity_verdict(mint: bool, signed: bool, decoded: bool, holds: bool) -> (r: Result<
    bool,
    BlockchainError,
>)
    ensures
        is_validity(r, verdict(mint, signed, decoded, holds)),
{
    if mint {
        Ok(true)
    } else if !signed {
        Err(
            BlockchainError::ValidationError {
                content: "Invalid Transaction:: Empty signature".to_owned(),
            },
        )
    } else if !decoded {
        Err(
            BlockchainError::ValidationError {
                content: "Invalid Transaction:: Malformed signature data".to_owned(),
            },
        )
    } else {
        Ok(holds)
    }
}

impl Transaction {
    /// An unsigned transaction, made now.
    pub fn new(from: String, to: String, amount: i64) -> (tx: Transaction)
        ensures
            tx@.from == from@,
            tx@.to == to@,
            tx@.amount == amount,
            tx@.signature is None,
    {
        Transaction::new_at(from, to, amount, now())
    }

    /// An unsigned transaction, made at `timestamp`.
    pub fn new_at(from: String, to: String, amount: i64, timestamp: i64) -> (tx: Transaction)
        ensures
            tx@ == (TransactionView { from: from@, to: to@, amount, timestamp, signature: None }),
    {
        Transaction { from, to, amount, timestamp, signature: None }
    }

    /// Whether the transaction mints: whether it comes from the void address.
    pub fn is_mint(&self) -> (r: bool)
        ensures
            r == (self@.from == void_address()),
    {
        self.from == VOID_ADDRESS.to_owned()
    }

    /// The hash of the transaction: a function of sender, receiver, amount
    /// and timestamp alone.
    pub fn calculate_hash(&self) -> (hash: String)
        ensures
            hash@ == transaction_hash(self@),
    {
        let mut preimage = self.from.clone();
        preimage.append(self.to.as_str());
        push_decimal(&mut preimage, self.amount);
        push_decimal(&mut preimage, self.timestamp);
        hash_of_text(preimage.as_str())
    }

    /// Whether the holder of `signer` may sign this transaction: only the
    /// sender's own address may.
    pub fn check_signer(&self, signer: &String) -> (r: Result<(), BlockchainError>)
        ensures
            match r {
                Ok(_) => signer@ == self@.from,
                Err(e) => {
                    &&& signer@ != self@.from
                    &&& e matches BlockchainError::SigningError { content }
                    &&& content@ == msg_foreign_wallet()
                },
            },
    {
        if *signer != self.from {
            Err(
                BlockchainError::SigningError {
                    content: "Invalid Transaction:: Cannot sign transactions for other wallets".to_owned(),
                },
            )
        } else {
            Ok(())
        }
    }

    /// Signs the transaction with `sk`, if `sk` is the sender's key: the
    /// signature over the hash is stored, and nothing else changes. A key
    /// of another address is refused, and the transaction stays as it was.
    pub fn sign(&mut self, sk: SecretKey) -> (r: Result<bool, BlockchainError>)
        ensures
            match r {
                Ok(signed) => {
                    &&& signed
                    &&& address_of(sk.bytes@.subrange(32, 64)) == old(self)@.from
                    &&& final(self)@ == (TransactionView {
                        signature: Some(signature_text(sk.bytes@, old(self)@)),
                        ..old(self)@
                    })
                },
                Err(e) => {
                    &&& address_of(sk.bytes@.subrange(32, 64)) != old(self)@.from
                    &&& final(self)@ == old(self)@
                    &&& e matches BlockchainError::SigningError { content }
                    &&& content@ == msg_foreign_wallet()
                },
            },
    {
        let signer = sk.public_key().to_address();
        match self.check_signer(&signer) {
            Err(e) => Err(e),
            Ok(_) => {
                let hash = self.calculate_hash();
                let signature = sk.sign(hash.as_str().as_bytes());
                self.signature = Some(to_base64(&signature));
                Ok(true)
            },
        }
    }

    /// Whether the transaction is valid. A mint is, signed or not. Any
    /// other needs a signature over its hash that the key in `from`
    /// accepts: without one, or where address or signature cannot be
    /// decoded, the answer is a validation error.
    pub fn is_valid(&self) -> (r: Result<bool, BlockchainError>)
        ensures
            is_validity(r, transaction_validity(self@)),
    {
        let mint = self.is_mint();
        match &self.signature {
            None => validity_verdict(mint, false, false, false),
            Some(text) => {
                match from_base64(&self.from) {
                    Ok(key) => match from_base64(text) {
                        Ok(signature) => {
                            let hash = self.calculate_hash();
                            let holds = check_signature(
                                &key,
                                hash.as_str().as_bytes(),
                                &signature,
                            );
                            validity_verdict(mint, true, true, holds)
                        },
                        Err(_) => validity_verdict(mint, true, false, false),
                    },
                    Err(_) => validity_verdict(mint, true, false, false),
                }
            },
        }
    }

    /// A transaction with every field given.
    pub fn from_parts(
        from: String,
        to: String,
        amount: i64,
        timestamp: i64,
        signature: Option<String>,
    ) -> (tx: Transaction)
        ensures
            tx@ == (TransactionView {
                from: from@,
                to: to@,
                amount,
                timestamp,
                signature: opt_view(signature),
            }),
    {
        Transaction { from, to, amount, timestamp, signature }
    }

}

/// A copy of an optional string.
pub(crate) fn clone_opt_string(s: &Option<String>) -> (out: Option<String>)
    ensures
        opt_view(out) == opt_view(*s),
{
    match s {
        Some(t) => Some(t.clone()),
        None => None,
    }
}

/// Whether two optional strings hold the same.
pub(crate) fn same_text(a: &Option<String>, b: &Option<String>) -> (r: bool)
    ensures
        r == (opt_view(*a) == opt_view(*b)),
{
    match a {
        Some(x) => match b {
            Some(y) => *x == *y,
            None => false,
        },
        None => b.is_none(),
    }
}

impl PartialEq for Transaction {
    fn eq(&self, other: &Self) -> (r: bool) {
        self.from == other.from && self.to == other.to && self.amount == other.amount
            && self.timestamp == other.timestamp && same_text(&self.signature, &other.signature)
    }
}

impl vstd::std_specs::cmp::PartialEqSpecImpl for Transaction {
    open spec fn obeys_eq_spec() -> bool {
        true
    }

    open spec fn eq_spec(&self, other: &Self) -> bool {
        self@ == other@
    }
}

impl Eq for Transaction {

}

/// Whether two sequences of transactions hold the same.
pub(crate) fn same_transactions(a: &Vec<Transaction>, b: &Vec<Transaction>) -> (r: bool)
    ensures
        r == (transaction_views(a@) == transaction_views(b@)),
{
    if a.len() != b.len() {
        assert(transaction_views(a@).len() != transaction_views(b@).len());
        return false;
    }
    let mut i: usize = 0;
    while i < a.len()
        invariant
            i <= a.len(),
            a.len() == b.len(),
            forall|j: int| 0 <= j < i ==> a@[j]@ == b@[j]@,
        decreases a.len() - i,
    {
        if !(a[i] == b[i]) {
            assert(transaction_views(a@)[i as int] != transaction_views(b@)[i as int]);
            return false;
        }
        i += 1;
    }
    assert(transaction_views(a@) =~= transaction_views(b@));
    true
}

impl Clone for Transaction {
    fn clone(&self) -> (out: Transaction)
        ensures
            out@ == self@,
    {
        Transaction {
            from: self.from.clone(),
            to: self.to.clone(),
            amount: self.amount,
            timestamp: self.timestamp,
            signature: clone_opt_string(&self.signature),
        }
    }
}

/// A copy of a sequence of transactions.
pub(crate) fn clone_transactions(txs: &Vec<Transaction>) -> (out: Vec<Transaction>)
    ensures
        transaction_views(out@) == transaction_views(txs@),
{
    let mut out: Vec<Transaction> = Vec::new();
    let mut i: usize = 0;
    while i < txs.len()
        invariant
            i <= txs.len(),
            out.len() == i,
            forall|j: int| 0 <= j < i ==> (#[trigger] out@[j])@ == txs@[j]@,
        decreases txs.len() - i,
    {
        out.push(txs[i].clone());
        i += 1;
    }
    assert(transaction_views(out@) =~= transaction_views(txs@));
    out
}

} // verus!
