use devote::block::VOID_HASH;
use devote::chain::{BlockChain, BUFFER_LIMIT};
use devote::error::BlockchainError;
use devote::keys::{generate_keys, KeyPair};
use devote::transaction::{Transaction, VOID_ADDRESS};

const ALICE: &str = "WzgzLDI0LDEzNiwxMDQsMTg3LDcwLDE2NywxNzIsMjQ2LDE3MSwyMzcsMTY1LDgyLDI0NywxLDIwNiw0OSw4MSw4Myw2LDE3OSwxODcsODYsMjAzLDEwLDkxLDYzLDI1MSwyNTEsMjE3LDE1NywyMjdd";

const BOB: &str = "WzExOSw5MCw2MCw3Niw0MywyMTAsMTY3LDE0NywxMzYsODksMjU1LDEyNCw3MCwyMzksMjM3LDIzNiw2MCwxODgsNDcsOSwzNiw5MiwyMTQsMjMxLDcwLDExMiw5OSwxOTksMTIsMjA3LDY4LDE5NF0";

const SIGNATURE: &str = "WzI1LDI0Niw2NiwxMzksMjAzLDEwNCwyMTIsMTgyLDYwLDE5MCwyMSwxNTcsMzgsNzYsMTAzLDkyLDEsMTAzLDIwMSwyNTMsMTYyLDExMCwxODUsODMsMTE5LDE3MSwxNjYsMTk0LDEyMywxODIsMTIyLDAsMTk1LDIwOCwyMDEsMjI2LDIzMiwxOSw1NCwyMzAsMTEyLDIwLDI4LDIyOSwxMTYsMTQsMjQyLDQsMTM0LDIwNiw0NSwxNTgsMjQ5LDk4LDE0MywxNjQsNzQsMTE2LDIzMiwxMDUsMTM0LDgwLDQ3LDhd";

const GENESIS_HASH: &str = "53EC47F5FBDF8B0603E9F5153EB2B7FA8411650ED0C101EF04CAE50E0D7A70AF";

const CHAIN_1: &str = "[{\"previous\":\"0000000000000000\",\"timestamp\":0,\"transactions\":[{\"from\":\"0000000000000000\",\"to\":\"WzgzLDI0LDEzNiwxMDQsMTg3LDcwLDE2NywxNzIsMjQ2LDE3MSwyMzcsMTY1LDgyLDI0NywxLDIwNiw0OSw4MSw4Myw2LDE3OSwxODcsODYsMjAzLDEwLDkxLDYzLDI1MSwyNTEsMjE3LDE1NywyMjdd\",\"amount\":1,\"timestamp\":1700000000,\"signature\":null},{\"from\":\"0000000000000000\",\"to\":\"WzExOSw5MCw2MCw3Niw0MywyMTAsMTY3LDE0NywxMzYsODksMjU1LDEyNCw3MCwyMzksMjM3LDIzNiw2MCwxODgsNDcsOSwzNiw5MiwyMTQsMjMxLDcwLDExMiw5OSwxOTksMTIsMjA3LDY4LDE5NF0\",\"amount\":1,\"timestamp\":1700000000,\"signature\":null}],\"hash\":\"53EC47F5FBDF8B0603E9F5153EB2B7FA8411650ED0C101EF04CAE50E0D7A70AF\"}]";

const BLOCK_2_HASH: &str = "3295F06F85C968100EB3B3DB43D9F6CBAAAE7B3A766FAB4C59F8EA5D2513B118";

const CHAIN_2: &str = "[{\"previous\":\"0000000000000000\",\"timestamp\":0,\"transactions\":[{\"from\":\"0000000000000000\",\"to\":\"WzgzLDI0LDEzNiwxMDQsMTg3LDcwLDE2NywxNzIsMjQ2LDE3MSwyMzcsMTY1LDgyLDI0NywxLDIwNiw0OSw4MSw4Myw2LDE3OSwxODcsODYsMjAzLDEwLDkxLDYzLDI1MSwyNTEsMjE3LDE1NywyMjdd\",\"amount\":1,\"timestamp\":1700000000,\"signature\":null},{\"from\":\"0000000000000000\",\"to\":\"WzExOSw5MCw2MCw3Niw0MywyMTAsMTY3LDE0NywxMzYsODksMjU1LDEyNCw3MCwyMzksMjM3LDIzNiw2MCwxODgsNDcsOSwzNiw5MiwyMTQsMjMxLDcwLDExMiw5OSwxOTksMTIsMjA3LDY4LDE5NF0\",\"amount\":1,\"timestamp\":1700000000,\"signature\":null}],\"hash\":\"53EC47F5FBDF8B0603E9F5153EB2B7FA8411650ED0C101EF04CAE50E0D7A70AF\"},{\"previous\":\"53EC47F5FBDF8B0603E9F5153EB2B7FA8411650ED0C101EF04CAE50E0D7A70AF\",\"timestamp\":1700000001,\"transactions\":[{\"from\":\"WzgzLDI0LDEzNiwxMDQsMTg3LDcwLDE2NywxNzIsMjQ2LDE3MSwyMzcsMTY1LDgyLDI0NywxLDIwNiw0OSw4MSw4Myw2LDE3OSwxODcsODYsMjAzLDEwLDkxLDYzLDI1MSwyNTEsMjE3LDE1NywyMjdd\",\"to\":\"WzExOSw5MCw2MCw3Niw0MywyMTAsMTY3LDE0NywxMzYsODksMjU1LDEyNCw3MCwyMzksMjM3LDIzNiw2MCwxODgsNDcsOSwzNiw5MiwyMTQsMjMxLDcwLDExMiw5OSwxOTksMTIsMjA3LDY4LDE5NF0\",\"amount\":1,\"timestamp\":1700000000,\"signature\":\"WzI1LDI0Niw2NiwxMzksMjAzLDEwNCwyMTIsMTgyLDYwLDE5MCwyMSwxNTcsMzgsNzYsMTAzLDkyLDEsMTAzLDIwMSwyNTMsMTYyLDExMCwxODUsODMsMTE5LDE3MSwxNjYsMTk0LDEyMywxODIsMTIyLDAsMTk1LDIwOCwyMDEsMjI2LDIzMiwxOSw1NCwyMzAsMTEyLDIwLDI4LDIyOSwxMTYsMTQsMjQyLDQsMTM0LDIwNiw0NSwxNTgsMjQ5LDk4LDE0MywxNjQsNzQsMTE2LDIzMiwxMDUsMTM0LDgwLDQ3LDhd\"}],\"hash\":\"3295F06F85C968100EB3B3DB43D9F6CBAAAE7B3A766FAB4C59F8EA5D2513B118\"}]";

const EMPTY_LEDGER: &str = "[{\"previous\":\"0000000000000000\",\"timestamp\":0,\"transactions\":[],\"hash\":\"0E048CA8C565F0D5F6CA1A4477D56C4284211657A0F7975BA6402E66457461C0\"}]";

const SMALL_CHAIN: &str = "[{\"previous\":\"0000000000000000\",\"timestamp\":0,\"transactions\":[{\"from\":\"0000000000000000\",\"to\":\"alice\",\"amount\":1,\"timestamp\":5,\"signature\":null},{\"from\":\"0000000000000000\",\"to\":\"bob\",\"amount\":1,\"timestamp\":5,\"signature\":null}],\"hash\":\"F896895EAA889D7757EDE3248ED9DA5D94D23108ABB210DC7DFD3BD88E06189F\"}]";

const SMALL_GENESIS_HASH: &str = "F896895EAA889D7757EDE3248ED9DA5D94D23108ABB210DC7DFD3BD88E06189F";

const HUGE: &str = "[{\"previous\":null,\"timestamp\":0,\"transactions\":[{\"from\":\"0000000000000000\",\"to\":\"x\",\"amount\":9223372036854775807,\"timestamp\":0,\"signature\":null},{\"from\":\"0000000000000000\",\"to\":\"x\",\"amount\":9223372036854775807,\"timestamp\":0,\"signature\":null}],\"hash\":null}]";

const T0: i64 = 1700000000;

fn addresses(list: &[&str]) -> Box<Vec<String>> {
    Box::new(list.iter().map(|a| a.to_string()).collect())
}

fn alice_and_bob() -> BlockChain {
    BlockChain::new_at(addresses(&[ALICE, BOB]), T0)
}

fn alice_keys() -> KeyPair {
    generate_keys(&"password".to_string(), &"182830994".to_string()).unwrap()
}

fn signed(pair: &KeyPair, to: &str, amount: i64, timestamp: i64) -> Transaction {
    let mut tx = Transaction::new_at(pair.pk.to_address(), to.to_string(), amount, timestamp);
    assert!(tx.sign(pair.sk).unwrap());
    tx
}

fn voter(i: usize) -> KeyPair {
    generate_keys(&"pw".to_string(), &format!("voter{}", i)).unwrap()
}

fn refusal(r: Result<(), BlockchainError>) -> String {
    match r {
        Err(BlockchainError::TransactionError { content }) => content,
        other => panic!("{:?}", other),
    }
}

#[test]
fn new_ledger_holds_the_genesis_block() {
    let mut ledger = alice_and_bob();
    assert_eq!(ledger.blocks().len(), 1);
    assert_eq!(ledger.pending().len(), 0);
    let genesis = ledger.get_latest_block();
    assert_eq!(genesis.previous, Some(VOID_HASH.to_string()));
    assert_eq!(genesis.timestamp, 0);
    assert_eq!(genesis.hash, Some(GENESIS_HASH.to_string()));
    assert_eq!(genesis.transactions.len(), 2);
    assert_eq!(genesis.transactions[0].from, VOID_ADDRESS);
    assert_eq!(genesis.transactions[0].to, ALICE);
    assert_eq!(genesis.transactions[0].amount, 1);
    assert_eq!(genesis.transactions[0].timestamp, T0);
    assert_eq!(genesis.transactions[0].signature, None);
    assert_eq!(genesis.transactions[1].to, BOB);
    assert_eq!(ledger.serialize_at(T0 + 9), CHAIN_1);
}

#[test]
fn new_ledger_made_now() {
    let ledger = BlockChain::new(addresses(&["a", "b", "c"]));
    assert_eq!(ledger.blocks().len(), 1);
    assert_eq!(ledger.pending().len(), 0);
    let genesis = ledger.get_latest_block();
    assert_eq!(genesis.timestamp, 0);
    assert_eq!(genesis.transactions.len(), 3);
    assert_eq!(genesis.transactions[2].to, "c");
    assert!(genesis.transactions[0].timestamp > 1_600_000_000);
    assert!(genesis.has_own_hash());
    assert!(ledger.is_valid(addresses(&["a", "b", "c"])));
}

#[test]
fn genesis_block_of_addresses() {
    let ledger = BlockChain::new_at(addresses(&[]), 0);
    let block = BlockChain::genesis_block_at(&vec!["alice".to_string(), "bob".to_string()], 5);
    assert_eq!(block.hash, Some(SMALL_GENESIS_HASH.to_string()));
    let now = ledger.create_genesis_block(addresses(&["alice", "bob"]));
    assert_eq!(now.transactions.len(), 2);
    assert_eq!(now.transactions[0].to, "alice");
    assert_eq!(now.transactions[1].to, "bob");
    assert_eq!(now.previous, Some(VOID_HASH.to_string()));
    assert_eq!(now.timestamp, 0);
    assert!(now.has_own_hash());
}

#[test]
fn ledger_of_no_addresses() {
    let mut ledger = BlockChain::new_at(addresses(&[]), 123);
    assert_eq!(ledger.serialize_at(0), EMPTY_LEDGER);
    assert!(ledger.is_valid(addresses(&[])));
    assert!(!ledger.is_valid(addresses(&["a"])));
}

#[test]
fn audit_passes_for_the_addresses_in_their_order() {
    let ledger = alice_and_bob();
    assert!(ledger.is_valid(addresses(&[ALICE, BOB])));
}

#[test]
fn audit_is_order_sensitive() {
    let ledger = BlockChain::new_at(addresses(&["B", "A"]), T0);
    assert!(!ledger.is_valid(addresses(&["A", "B"])));
    assert!(ledger.is_valid(addresses(&["B", "A"])));
    let ledger = alice_and_bob();
    assert!(!ledger.is_valid(addresses(&[BOB, ALICE])));
}

#[test]
fn audit_fails_for_other_addresses() {
    let ledger = alice_and_bob();
    assert!(!ledger.is_valid(addresses(&[ALICE])));
    assert!(!ledger.is_valid(addresses(&[ALICE, BOB, "carol"])));
    assert!(!ledger.is_valid(addresses(&[ALICE, "carol"])));
    assert!(!ledger.is_valid(addresses(&[])));
}

#[test]
fn balance_counts_the_mints() {
    let ledger = BlockChain::new_at(addresses(&["a", "a", "b", "a"]), T0);
    assert_eq!(ledger.get_address_balance(&"a".to_string()), 3);
    assert_eq!(ledger.get_address_balance(&"b".to_string()), 1);
    assert_eq!(ledger.get_address_balance(&"c".to_string()), 0);
    assert_eq!(ledger.get_address_balance(&VOID_ADDRESS.to_string()), -4);
}

#[test]
fn balance_of_n_mints_to_one_address() {
    let n: usize = 25;
    let list: Vec<String> = (0..n).map(|_| "one".to_string()).collect();
    let ledger = BlockChain::new_at(Box::new(list), T0);
    assert_eq!(ledger.get_address_balance(&"one".to_string()), 25);
    assert_eq!(ledger.get_address_balance(&VOID_ADDRESS.to_string()), -25);
}

#[test]
fn balance_of_a_mint_to_the_void_address() {
    let ledger = BlockChain::new_at(addresses(&[VOID_ADDRESS, "a"]), T0);
    assert_eq!(ledger.get_address_balance(&VOID_ADDRESS.to_string()), -1);
    assert_eq!(ledger.get_address_balance(&"a".to_string()), 1);
}

#[test]
fn balance_wraps_in_64_bits() {
    let ledger = BlockChain::from_string(HUGE.to_string());
    assert_eq!(ledger.get_address_balance(&"x".to_string()), -2);
    assert_eq!(ledger.get_address_balance(&VOID_ADDRESS.to_string()), 2);
}

#[test]
fn accepted_transaction_waits_in_the_buffer() {
    let mut ledger = alice_and_bob();
    let tx = signed(&alice_keys(), BOB, 1, T0);
    assert!(ledger.add_transaction_at(tx, T0 + 1).is_ok());
    assert_eq!(ledger.pending().len(), 1);
    assert_eq!(ledger.pending()[0].from, ALICE);
    assert_eq!(ledger.pending()[0].signature, Some(SIGNATURE.to_string()));
    assert_eq!(ledger.blocks().len(), 1);
}

#[test]
fn balance_ignores_the_buffer() {
    let mut ledger = alice_and_bob();
    let tx = signed(&alice_keys(), BOB, 1, T0);
    assert!(ledger.add_transaction_at(tx, T0 + 1).is_ok());
    assert_eq!(ledger.get_address_balance(&ALICE.to_string()), 1);
    assert_eq!(ledger.get_address_balance(&BOB.to_string()), 1);
    ledger.serialize_at(T0 + 1);
    assert_eq!(ledger.get_address_balance(&ALICE.to_string()), 0);
    assert_eq!(ledger.get_address_balance(&BOB.to_string()), 2);
}

#[test]
fn add_transaction_made_now() {
    let mut ledger = alice_and_bob();
    let tx = signed(&alice_keys(), BOB, 1, T0);
    assert!(ledger.add_transaction(tx).is_ok());
    assert_eq!(ledger.pending().len(), 1);
    assert_eq!(ledger.get_address_balance(&ALICE.to_string()), 1);
    let unsigned = Transaction::new_at(ALICE.to_string(), BOB.to_string(), 1, T0);
    assert_eq!(
        refusal(ledger.add_transaction(unsigned)),
        "Invalid Transaction:: Transaction not valid"
    );
    assert_eq!(ledger.pending().len(), 1);
}

#[test]
fn eleventh_transaction_flushes_the_first_ten() {
    let voters: Vec<KeyPair> = (0..11usize).map(voter).collect();
    let list: Vec<String> = voters.iter().map(|v| v.pk.to_address()).collect();
    let mut ledger = BlockChain::new_at(Box::new(list.clone()), T0);
    let genesis_hash = ledger.get_latest_block().hash.clone();
    for i in 0..10usize {
        let tx = signed(&voters[i], "candidate", 1, T0 + i as i64);
        assert!(ledger.add_transaction_at(tx, T0 + 100).is_ok());
        assert_eq!(ledger.blocks().len(), 1);
        assert_eq!(ledger.pending().len(), i + 1);
    }
    assert_eq!(ledger.pending().len(), BUFFER_LIMIT);
    assert_eq!(ledger.get_address_balance(&"candidate".to_string()), 0);
    let tx = signed(&voters[10], "candidate", 1, T0 + 10);
    assert!(ledger.add_transaction_at(tx, T0 + 200).is_ok());
    assert_eq!(ledger.blocks().len(), 2);
    let block = ledger.get_latest_block();
    assert_eq!(block.previous, genesis_hash);
    assert_eq!(block.timestamp, T0 + 200);
    assert_eq!(block.transactions.len(), 10);
    for i in 0..10usize {
        assert_eq!(block.transactions[i].from, list[i]);
        assert_eq!(block.transactions[i].timestamp, T0 + i as i64);
    }
    assert!(block.has_own_hash());
    assert_eq!(ledger.pending().len(), 1);
    assert_eq!(ledger.pending()[0].from, list[10]);
    assert_eq!(ledger.get_address_balance(&"candidate".to_string()), 10);
    assert_eq!(ledger.get_address_balance(&list[0]), 0);
    assert_eq!(ledger.get_address_balance(&list[10]), 1);
    assert!(ledger.is_valid(Box::new(list)));
}

#[test]
fn transaction_from_the_void_address_is_refused() {
    let mut ledger = alice_and_bob();
    let tx = Transaction::new_at(VOID_ADDRESS.to_string(), ALICE.to_string(), 1, T0);
    assert_eq!(
        refusal(ledger.add_transaction_at(tx, T0)),
        "Invalid Transaction:: Invalid to or from address"
    );
    assert_eq!(ledger.pending().len(), 0);
}

#[test]
fn transaction_to_the_void_address_is_refused() {
    let mut ledger = alice_and_bob();
    let tx = signed(&alice_keys(), VOID_ADDRESS, 1, T0);
    assert_eq!(
        refusal(ledger.add_transaction_at(tx, T0)),
        "Invalid Transaction:: Invalid to or from address"
    );
}

#[test]
fn unsigned_transaction_is_refused() {
    let mut ledger = alice_and_bob();
    let tx = Transaction::new_at(ALICE.to_string(), BOB.to_string(), 1, T0);
    assert_eq!(
        refusal(ledger.add_transaction_at(tx, T0)),
        "Invalid Transaction:: Transaction not valid"
    );
    assert_eq!(ledger.pending().len(), 0);
}

#[test]
fn tampered_transaction_is_refused() {
    let mut ledger = alice_and_bob();
    let mut tx = signed(&alice_keys(), BOB, 1, T0);
    tx.to = "carol".to_string();
    assert_eq!(
        refusal(ledger.add_transaction_at(tx, T0)),
        "Invalid Transaction:: Transaction not valid"
    );
}

#[test]
fn amount_that_is_not_positive_is_refused() {
    let mut ledger = alice_and_bob();
    for amount in [0i64, -1, i64::MIN] {
        let tx = signed(&alice_keys(), BOB, amount, T0);
        assert_eq!(
            refusal(ledger.add_transaction_at(tx, T0)),
            "Invalid Transaction:: Transaction amount should be greater than zero"
        );
    }
    assert_eq!(ledger.pending().len(), 0);
}

#[test]
fn amount_above_the_balance_is_refused() {
    let mut ledger = alice_and_bob();
    let tx = signed(&alice_keys(), BOB, 2, T0);
    assert_eq!(
        refusal(ledger.add_transaction_at(tx, T0)),
        "Invalid Transaction:: Insufficient balance"
    );
    assert_eq!(ledger.pending().len(), 0);
    assert_eq!(ledger.blocks().len(), 1);
    assert_eq!(ledger.get_address_balance(&ALICE.to_string()), 1);
}

#[test]
fn sender_without_a_balance_is_refused() {
    let mut ledger = BlockChain::new_at(addresses(&[BOB]), T0);
    let tx = signed(&alice_keys(), BOB, 1, T0);
    assert_eq!(
        refusal(ledger.add_transaction_at(tx, T0)),
        "Invalid Transaction:: Insufficient balance"
    );
}

#[test]
fn pending_amount_above_the_balance_is_refused() {
    let mut ledger = alice_and_bob();
    assert!(ledger.add_transaction_at(signed(&alice_keys(), BOB, 1, T0), T0).is_ok());
    assert!(ledger.add_transaction_at(signed(&alice_keys(), BOB, 1, T0 + 1), T0).is_ok());
    assert_eq!(
        refusal(ledger.add_transaction_at(signed(&alice_keys(), BOB, 1, T0 + 2), T0)),
        "Invalid Transaction:: Pending transaction amount exceeded"
    );
    assert_eq!(ledger.pending().len(), 2);
}

#[test]
fn pending_of_other_senders_does_not_count() {
    let bob = generate_keys(&"hunter2".to_string(), &"2000".to_string()).unwrap();
    assert_eq!(bob.pk.to_address(), BOB);
    let mut ledger = alice_and_bob();
    assert!(ledger.add_transaction_at(signed(&bob, ALICE, 1, T0), T0).is_ok());
    assert!(ledger.add_transaction_at(signed(&alice_keys(), BOB, 1, T0), T0).is_ok());
    assert_eq!(ledger.pending().len(), 2);
}

#[test]
fn rules_apply_in_their_order() {
    let mut ledger = alice_and_bob();
    let tx = Transaction::new_at(VOID_ADDRESS.to_string(), VOID_ADDRESS.to_string(), -1, T0);
    assert_eq!(
        refusal(ledger.accept(tx, false, T0)),
        "Invalid Transaction:: Invalid to or from address"
    );
    let tx = Transaction::new_at("nobody".to_string(), BOB.to_string(), -1, T0);
    assert_eq!(
        refusal(ledger.accept(tx, false, T0)),
        "Invalid Transaction:: Transaction not valid"
    );
    let tx = Transaction::new_at("nobody".to_string(), BOB.to_string(), -1, T0);
    assert_eq!(
        refusal(ledger.accept(tx, true, T0)),
        "Invalid Transaction:: Transaction amount should be greater than zero"
    );
    let tx = Transaction::new_at("nobody".to_string(), BOB.to_string(), 1, T0);
    assert_eq!(
        refusal(ledger.accept(tx, true, T0)),
        "Invalid Transaction:: Insufficient balance"
    );
    let tx = Transaction::new_at(ALICE.to_string(), BOB.to_string(), 1, T0);
    assert!(ledger.accept(tx, true, T0).is_ok());
    assert_eq!(ledger.pending().len(), 1);
}

#[test]
fn flush_appends_a_block_and_keeps_the_buffer() {
    let mut ledger = alice_and_bob();
    ledger.create_block_from_buffer_at(T0 + 5);
    assert_eq!(ledger.blocks().len(), 1);
    assert!(ledger.add_transaction_at(signed(&alice_keys(), BOB, 1, T0), T0).is_ok());
    ledger.create_block_from_buffer_at(T0 + 1);
    assert_eq!(ledger.blocks().len(), 2);
    assert_eq!(ledger.pending().len(), 1);
    assert_eq!(ledger.get_latest_block().hash, Some(BLOCK_2_HASH.to_string()));
    assert_eq!(ledger.get_latest_block().previous, Some(GENESIS_HASH.to_string()));
    ledger.create_block_from_buffer();
    assert_eq!(ledger.blocks().len(), 3);
    assert!(ledger.get_latest_block().timestamp > 1_600_000_000);
    assert_eq!(ledger.get_latest_block().previous, Some(BLOCK_2_HASH.to_string()));
}

#[test]
fn serialize_commits_what_is_pending() {
    let mut ledger = alice_and_bob();
    assert!(ledger.add_transaction_at(signed(&alice_keys(), BOB, 1, T0), T0).is_ok());
    let text = ledger.serialize_at(T0 + 1);
    assert_eq!(text, CHAIN_2);
    assert_eq!(ledger.pending().len(), 0);
    assert_eq!(ledger.blocks().len(), 2);
    assert_eq!(ledger.serialize_at(T0 + 2), CHAIN_2);
    assert_eq!(ledger.serialize(), CHAIN_2);
    assert_eq!(ledger.blocks().len(), 2);
}

#[test]
fn serialize_made_now() {
    let mut ledger = alice_and_bob();
    assert!(ledger.add_transaction_at(signed(&alice_keys(), BOB, 1, T0), T0).is_ok());
    let text = ledger.serialize();
    assert_eq!(ledger.blocks().len(), 2);
    assert_eq!(ledger.pending().len(), 0);
    assert!(ledger.get_latest_block().timestamp > 1_600_000_000);
    assert_eq!(ledger.serialize(), text);
}

#[test]
fn saved_ledger_is_restored_and_passes_the_audit() {
    let mut ledger = alice_and_bob();
    assert!(ledger.add_transaction_at(signed(&alice_keys(), BOB, 1, T0), T0).is_ok());
    let text = ledger.serialize_at(T0 + 1);
    let mut fresh = BlockChain::new_at(addresses(&[]), 0);
    fresh.deserialize(text.clone());
    assert_eq!(fresh.blocks().len(), 2);
    assert_eq!(fresh.serialize_at(0), text);
    assert!(fresh.is_valid(addresses(&[ALICE, BOB])));
    assert!(!fresh.is_valid(addresses(&[BOB, ALICE])));
    assert_eq!(fresh.get_address_balance(&ALICE.to_string()), 0);
    assert_eq!(fresh.get_address_balance(&BOB.to_string()), 2);
    let loaded = BlockChain::from_string(text);
    assert!(loaded.is_valid(addresses(&[ALICE, BOB])));
}

#[test]
fn malformed_text_changes_nothing() {
    let malformed: Vec<String> = vec![
        "".to_string(),
        "garbage".to_string(),
        "[]".to_string(),
        "{\"chain\":[]}".to_string(),
        CHAIN_2[..CHAIN_2.len() - 1].to_string(),
        format!(" {}", CHAIN_2),
        CHAIN_2.replace("\"amount\":1", "\"amount\":1.5"),
    ];
    for text in malformed {
        let mut ledger = alice_and_bob();
        assert!(ledger.add_transaction_at(signed(&alice_keys(), BOB, 1, T0), T0).is_ok());
        ledger.deserialize(text.clone());
        assert_eq!(ledger.blocks().len(), 1, "{}", text);
        assert_eq!(ledger.pending().len(), 1);
        assert_eq!(ledger.get_latest_block().hash, Some(GENESIS_HASH.to_string()));
        assert_eq!(ledger.serialize_at(T0 + 1), CHAIN_2);
    }
}

#[test]
fn deserialize_replaces_the_chain_and_keeps_the_buffer() {
    let mut ledger = alice_and_bob();
    assert!(ledger.add_transaction_at(signed(&alice_keys(), BOB, 1, T0), T0).is_ok());
    ledger.deserialize(SMALL_CHAIN.to_string());
    assert_eq!(ledger.blocks().len(), 1);
    assert_eq!(ledger.get_latest_block().hash, Some(SMALL_GENESIS_HASH.to_string()));
    assert_eq!(ledger.pending().len(), 1);
    assert_eq!(ledger.get_address_balance(&"alice".to_string()), 1);
}

#[test]
fn from_string_loads_a_chain() {
    let mut ledger = BlockChain::from_string(CHAIN_2.to_string());
    assert_eq!(ledger.blocks().len(), 2);
    assert_eq!(ledger.pending().len(), 0);
    assert_eq!(ledger.serialize_at(0), CHAIN_2);
}

#[test]
fn from_string_of_malformed_text_is_the_empty_ledger() {
    let mut ledger = BlockChain::from_string("oops".to_string());
    assert_eq!(ledger.blocks().len(), 1);
    assert_eq!(ledger.serialize_at(0), EMPTY_LEDGER);
    let mut ledger = BlockChain::from_string("[]".to_string());
    assert_eq!(ledger.serialize_at(0), EMPTY_LEDGER);
}

#[test]
fn audit_detects_a_changed_amount() {
    let text = CHAIN_2.replacen("\"amount\":1,\"timestamp\":1700000000,\"signature\":\"", "\"amount\":2,\"timestamp\":1700000000,\"signature\":\"", 1);
    assert_ne!(text, CHAIN_2);
    let ledger = BlockChain::from_string(text);
    assert_eq!(ledger.blocks().len(), 2);
    assert!(!ledger.is_valid(addresses(&[ALICE, BOB])));
}

#[test]
fn audit_detects_a_changed_block() {
    let text = CHAIN_2.replace("\"timestamp\":1700000001", "\"timestamp\":1700000002");
    assert_ne!(text, CHAIN_2);
    let ledger = BlockChain::from_string(text);
    assert_eq!(ledger.blocks().len(), 2);
    assert!(!ledger.is_valid(addresses(&[ALICE, BOB])));
}

#[test]
fn audit_detects_a_broken_link() {
    let link = format!("\"previous\":\"{}\"", GENESIS_HASH);
    let text = CHAIN_2.replace(&link, "\"previous\":\"0000000000000000\"");
    assert_ne!(text, CHAIN_2);
    let ledger = BlockChain::from_string(text);
    assert_eq!(ledger.blocks().len(), 2);
    assert!(!ledger.is_valid(addresses(&[ALICE, BOB])));
}

#[test]
fn audit_detects_a_changed_genesis() {
    let text = CHAIN_1.replacen("\"amount\":1", "\"amount\":5", 1);
    let ledger = BlockChain::from_string(text);
    assert!(!ledger.is_valid(addresses(&[ALICE, BOB])));
    let text = CHAIN_1.replace(GENESIS_HASH, "00");
    let ledger = BlockChain::from_string(text);
    assert!(!ledger.is_valid(addresses(&[ALICE, BOB])));
    let text = CHAIN_1.replacen("\"timestamp\":0", "\"timestamp\":1", 1);
    let ledger = BlockChain::from_string(text);
    assert!(!ledger.is_valid(addresses(&[ALICE, BOB])));
}

#[test]
fn audit_detects_an_unsigned_transaction_in_a_block() {
    let mut ledger = alice_and_bob();
    let tx = Transaction::new_at(ALICE.to_string(), BOB.to_string(), 1, T0);
    assert!(ledger.accept(tx, true, T0).is_ok());
    ledger.serialize_at(T0 + 1);
    assert_eq!(ledger.blocks().len(), 2);
    assert!(ledger.get_latest_block().has_own_hash());
    assert!(!ledger.is_valid(addresses(&[ALICE, BOB])));
}

#[test]
fn audit_does_not_look_at_mint_times() {
    let early = BlockChain::new_at(addresses(&["a", "b"]), 1);
    let late = BlockChain::new_at(addresses(&["a", "b"]), 2);
    assert!(early.is_valid(addresses(&["a", "b"])));
    assert!(late.is_valid(addresses(&["a", "b"])));
    assert_ne!(early.get_latest_block().hash, late.get_latest_block().hash);
}

#[test]
fn ledgers_are_equal_when_they_hold_the_same() {
    let a = alice_and_bob();
    let mut b = alice_and_bob();
    assert!(a == b);
    assert!(a == a.clone());
    assert!(b.add_transaction_at(signed(&alice_keys(), BOB, 1, T0), T0).is_ok());
    assert!(a != b);
    assert!(b == b.clone());
    b.serialize_at(T0 + 1);
    assert!(b == BlockChain::from_string(CHAIN_2.to_string()));
    assert!(a != b);
    assert!(BlockChain::new_at(addresses(&["a"]), 1) != BlockChain::new_at(addresses(&["a"]), 2));
}
