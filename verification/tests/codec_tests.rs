use devote::block::Block;
use devote::codec::{
    decode_chain_text, encode_chain, parse_block, parse_blocks, parse_transaction,
    parse_transactions, push_json_block, push_json_transaction, push_json_transactions,
};
use devote::text::chars_of;
use devote::transaction::Transaction;

const ALICE: &str = "WzgzLDI0LDEzNiwxMDQsMTg3LDcwLDE2NywxNzIsMjQ2LDE3MSwyMzcsMTY1LDgyLDI0NywxLDIwNiw0OSw4MSw4Myw2LDE3OSwxODcsODYsMjAzLDEwLDkxLDYzLDI1MSwyNTEsMjE3LDE1NywyMjdd";

const BOB: &str = "WzExOSw5MCw2MCw3Niw0MywyMTAsMTY3LDE0NywxMzYsODksMjU1LDEyNCw3MCwyMzksMjM3LDIzNiw2MCwxODgsNDcsOSwzNiw5MiwyMTQsMjMxLDcwLDExMiw5OSwxOTksMTIsMjA3LDY4LDE5NF0";

const SIGNATURE: &str = "WzI1LDI0Niw2NiwxMzksMjAzLDEwNCwyMTIsMTgyLDYwLDE5MCwyMSwxNTcsMzgsNzYsMTAzLDkyLDEsMTAzLDIwMSwyNTMsMTYyLDExMCwxODUsODMsMTE5LDE3MSwxNjYsMTk0LDEyMywxODIsMTIyLDAsMTk1LDIwOCwyMDEsMjI2LDIzMiwxOSw1NCwyMzAsMTEyLDIwLDI4LDIyOSwxMTYsMTQsMjQyLDQsMTM0LDIwNiw0NSwxNTgsMjQ5LDk4LDE0MywxNjQsNzQsMTE2LDIzMiwxMDUsMTM0LDgwLDQ3LDhd";

const TX_JSON: &str = "{\"from\":\"WzgzLDI0LDEzNiwxMDQsMTg3LDcwLDE2NywxNzIsMjQ2LDE3MSwyMzcsMTY1LDgyLDI0NywxLDIwNiw0OSw4MSw4Myw2LDE3OSwxODcsODYsMjAzLDEwLDkxLDYzLDI1MSwyNTEsMjE3LDE1NywyMjdd\",\"to\":\"WzExOSw5MCw2MCw3Niw0MywyMTAsMTY3LDE0NywxMzYsODksMjU1LDEyNCw3MCwyMzksMjM3LDIzNiw2MCwxODgsNDcsOSwzNiw5MiwyMTQsMjMxLDcwLDExMiw5OSwxOTksMTIsMjA3LDY4LDE5NF0\",\"amount\":1,\"timestamp\":1700000000,\"signature\":\"WzI1LDI0Niw2NiwxMzksMjAzLDEwNCwyMTIsMTgyLDYwLDE5MCwyMSwxNTcsMzgsNzYsMTAzLDkyLDEsMTAzLDIwMSwyNTMsMTYyLDExMCwxODUsODMsMTE5LDE3MSwxNjYsMTk0LDEyMywxODIsMTIyLDAsMTk1LDIwOCwyMDEsMjI2LDIzMiwxOSw1NCwyMzAsMTEyLDIwLDI4LDIyOSwxMTYsMTQsMjQyLDQsMTM0LDIwNiw0NSwxNTgsMjQ5LDk4LDE0MywxNjQsNzQsMTE2LDIzMiwxMDUsMTM0LDgwLDQ3LDhd\"}";

const CHAIN_1: &str = "[{\"previous\":\"0000000000000000\",\"timestamp\":0,\"transactions\":[{\"from\":\"0000000000000000\",\"to\":\"WzgzLDI0LDEzNiwxMDQsMTg3LDcwLDE2NywxNzIsMjQ2LDE3MSwyMzcsMTY1LDgyLDI0NywxLDIwNiw0OSw4MSw4Myw2LDE3OSwxODcsODYsMjAzLDEwLDkxLDYzLDI1MSwyNTEsMjE3LDE1NywyMjdd\",\"amount\":1,\"timestamp\":1700000000,\"signature\":null},{\"from\":\"0000000000000000\",\"to\":\"WzExOSw5MCw2MCw3Niw0MywyMTAsMTY3LDE0NywxMzYsODksMjU1LDEyNCw3MCwyMzksMjM3LDIzNiw2MCwxODgsNDcsOSwzNiw5MiwyMTQsMjMxLDcwLDExMiw5OSwxOTksMTIsMjA3LDY4LDE5NF0\",\"amount\":1,\"timestamp\":1700000000,\"signature\":null}],\"hash\":\"53EC47F5FBDF8B0603E9F5153EB2B7FA8411650ED0C101EF04CAE50E0D7A70AF\"}]";

const CHAIN_2: &str = "[{\"previous\":\"0000000000000000\",\"timestamp\":0,\"transactions\":[{\"from\":\"0000000000000000\",\"to\":\"WzgzLDI0LDEzNiwxMDQsMTg3LDcwLDE2NywxNzIsMjQ2LDE3MSwyMzcsMTY1LDgyLDI0NywxLDIwNiw0OSw4MSw4Myw2LDE3OSwxODcsODYsMjAzLDEwLDkxLDYzLDI1MSwyNTEsMjE3LDE1NywyMjdd\",\"amount\":1,\"timestamp\":1700000000,\"signature\":null},{\"from\":\"0000000000000000\",\"to\":\"WzExOSw5MCw2MCw3Niw0MywyMTAsMTY3LDE0NywxMzYsODksMjU1LDEyNCw3MCwyMzksMjM3LDIzNiw2MCwxODgsNDcsOSwzNiw5MiwyMTQsMjMxLDcwLDExMiw5OSwxOTksMTIsMjA3LDY4LDE5NF0\",\"amount\":1,\"timestamp\":1700000000,\"signature\":null}],\"hash\":\"53EC47F5FBDF8B0603E9F5153EB2B7FA8411650ED0C101EF04CAE50E0D7A70AF\"},{\"previous\":\"53EC47F5FBDF8B0603E9F5153EB2B7FA8411650ED0C101EF04CAE50E0D7A70AF\",\"timestamp\":1700000001,\"transactions\":[{\"from\":\"WzgzLDI0LDEzNiwxMDQsMTg3LDcwLDE2NywxNzIsMjQ2LDE3MSwyMzcsMTY1LDgyLDI0NywxLDIwNiw0OSw4MSw4Myw2LDE3OSwxODcsODYsMjAzLDEwLDkxLDYzLDI1MSwyNTEsMjE3LDE1NywyMjdd\",\"to\":\"WzExOSw5MCw2MCw3Niw0MywyMTAsMTY3LDE0NywxMzYsODksMjU1LDEyNCw3MCwyMzksMjM3LDIzNiw2MCwxODgsNDcsOSwzNiw5MiwyMTQsMjMxLDcwLDExMiw5OSwxOTksMTIsMjA3LDY4LDE5NF0\",\"amount\":1,\"timestamp\":1700000000,\"signature\":\"WzI1LDI0Niw2NiwxMzksMjAzLDEwNCwyMTIsMTgyLDYwLDE5MCwyMSwxNTcsMzgsNzYsMTAzLDkyLDEsMTAzLDIwMSwyNTMsMTYyLDExMCwxODUsODMsMTE5LDE3MSwxNjYsMTk0LDEyMywxODIsMTIyLDAsMTk1LDIwOCwyMDEsMjI2LDIzMiwxOSw1NCwyMzAsMTEyLDIwLDI4LDIyOSwxMTYsMTQsMjQyLDQsMTM0LDIwNiw0NSwxNTgsMjQ5LDk4LDE0MywxNjQsNzQsMTE2LDIzMiwxMDUsMTM0LDgwLDQ3LDhd\"}],\"hash\":\"3295F06F85C968100EB3B3DB43D9F6CBAAAE7B3A766FAB4C59F8EA5D2513B118\"}]";

const EMPTY_LEDGER: &str = "[{\"previous\":\"0000000000000000\",\"timestamp\":0,\"transactions\":[],\"hash\":\"0E048CA8C565F0D5F6CA1A4477D56C4284211657A0F7975BA6402E66457461C0\"}]";

const SMALL_CHAIN: &str = "[{\"previous\":\"0000000000000000\",\"timestamp\":0,\"transactions\":[{\"from\":\"0000000000000000\",\"to\":\"alice\",\"amount\":1,\"timestamp\":5,\"signature\":null},{\"from\":\"0000000000000000\",\"to\":\"bob\",\"amount\":1,\"timestamp\":5,\"signature\":null}],\"hash\":\"F896895EAA889D7757EDE3248ED9DA5D94D23108ABB210DC7DFD3BD88E06189F\"}]";

const SMALL_GENESIS_HASH: &str = "F896895EAA889D7757EDE3248ED9DA5D94D23108ABB210DC7DFD3BD88E06189F";

const HUGE: &str = "[{\"previous\":null,\"timestamp\":0,\"transactions\":[{\"from\":\"0000000000000000\",\"to\":\"x\",\"amount\":9223372036854775807,\"timestamp\":0,\"signature\":null},{\"from\":\"0000000000000000\",\"to\":\"x\",\"amount\":9223372036854775807,\"timestamp\":0,\"signature\":null}],\"hash\":null}]";

fn signed_by_alice() -> Transaction {
    Transaction::from_parts(
        ALICE.to_string(),
        BOB.to_string(),
        1,
        1700000000,
        Some(SIGNATURE.to_string()),
    )
}

#[test]
fn text_of_a_transaction() {
    let mut out = String::new();
    push_json_transaction(&mut out, &signed_by_alice());
    assert_eq!(out, TX_JSON);
}

#[test]
fn text_of_an_unsigned_transaction() {
    let mut out = String::from("> ");
    let tx = Transaction::new_at("a\"b".to_string(), "".to_string(), -7, 0);
    push_json_transaction(&mut out, &tx);
    assert_eq!(
        out,
        "> {\"from\":\"a\\\"b\",\"to\":\"\",\"amount\":-7,\"timestamp\":0,\"signature\":null}"
    );
}

#[test]
fn text_of_transactions() {
    let mut out = String::new();
    push_json_transactions(&mut out, &vec![]);
    assert_eq!(out, "[]");
    let mut out = String::new();
    let a = Transaction::new_at("a".to_string(), "b".to_string(), 1, 2);
    let b = Transaction::new_at("c".to_string(), "d".to_string(), 3, 4);
    push_json_transactions(&mut out, &vec![a, b]);
    assert_eq!(
        out,
        "[{\"from\":\"a\",\"to\":\"b\",\"amount\":1,\"timestamp\":2,\"signature\":null},{\"from\":\"c\",\"to\":\"d\",\"amount\":3,\"timestamp\":4,\"signature\":null}]"
    );
}

#[test]
fn text_of_a_block() {
    let block = Block { previous: None, timestamp: -1, transactions: Box::new(vec![]), hash: None };
    let mut out = String::new();
    push_json_block(&mut out, &block);
    assert_eq!(out, "{\"previous\":null,\"timestamp\":-1,\"transactions\":[],\"hash\":null}");
}

#[test]
fn text_of_a_chain() {
    assert_eq!(encode_chain(&vec![]), "[]");
    let chain = decode_chain_text(CHAIN_2).unwrap();
    assert_eq!(encode_chain(&chain), CHAIN_2);
}

#[test]
fn text_is_json_that_serde_json_reads() {
    let value: serde_json::Value = serde_json::from_str(CHAIN_2).unwrap();
    let chain = decode_chain_text(CHAIN_2).unwrap();
    let text = encode_chain(&chain);
    let again: serde_json::Value = serde_json::from_str(&text).unwrap();
    assert_eq!(value, again);
    let blocks = again.as_array().unwrap();
    assert_eq!(blocks.len(), 2);
    assert_eq!(blocks[0].get("previous").unwrap().as_str().unwrap(), "0000000000000000");
    assert_eq!(blocks[0].get("timestamp").unwrap().as_i64().unwrap(), 0);
    assert_eq!(blocks[1].get("previous").unwrap(), blocks[0].get("hash").unwrap());
    let txs = blocks[1].get("transactions").unwrap().as_array().unwrap();
    assert_eq!(txs.len(), 1);
    assert_eq!(txs[0].get("from").unwrap().as_str().unwrap(), ALICE);
    assert_eq!(txs[0].get("to").unwrap().as_str().unwrap(), BOB);
    assert_eq!(txs[0].get("amount").unwrap().as_i64().unwrap(), 1);
    assert_eq!(txs[0].get("signature").unwrap().as_str().unwrap(), SIGNATURE);
    let mints = blocks[0].get("transactions").unwrap().as_array().unwrap();
    assert!(mints[0].get("signature").unwrap().is_null());
}

#[test]
fn decode_reads_every_field() {
    let chain = decode_chain_text(CHAIN_2).unwrap();
    assert_eq!(chain.len(), 2);
    assert_eq!(chain[0].previous, Some("0000000000000000".to_string()));
    assert_eq!(chain[0].timestamp, 0);
    assert_eq!(chain[0].transactions.len(), 2);
    assert_eq!(chain[0].transactions[0].from, "0000000000000000");
    assert_eq!(chain[0].transactions[0].to, ALICE);
    assert_eq!(chain[0].transactions[1].to, BOB);
    assert_eq!(chain[0].transactions[1].amount, 1);
    assert_eq!(chain[0].transactions[1].timestamp, 1700000000);
    assert_eq!(chain[0].transactions[1].signature, None);
    assert_eq!(chain[1].previous, chain[0].hash);
    assert_eq!(chain[1].timestamp, 1700000001);
    assert_eq!(chain[1].transactions[0].signature, Some(SIGNATURE.to_string()));
    assert!(chain[0].has_own_hash());
    assert!(chain[1].has_own_hash());
}

#[test]
fn decode_reads_escaped_strings_back() {
    let odd = "a\"b\\c\n\t\r\u{8}\u{c}\u{1}\u{1f}\u{7f}é🗳";
    let tx = Transaction::from_parts(odd.to_string(), "".to_string(), i64::MIN, i64::MAX, Some(odd.to_string()));
    let block = Block {
        previous: Some(odd.to_string()),
        timestamp: -5,
        transactions: Box::new(vec![tx]),
        hash: None,
    };
    let text = encode_chain(&vec![block]);
    let chain = decode_chain_text(&text).unwrap();
    assert_eq!(chain.len(), 1);
    assert_eq!(chain[0].previous, Some(odd.to_string()));
    assert_eq!(chain[0].hash, None);
    assert_eq!(chain[0].timestamp, -5);
    assert_eq!(chain[0].transactions[0].from, odd);
    assert_eq!(chain[0].transactions[0].to, "");
    assert_eq!(chain[0].transactions[0].amount, i64::MIN);
    assert_eq!(chain[0].transactions[0].timestamp, i64::MAX);
    assert_eq!(chain[0].transactions[0].signature, Some(odd.to_string()));
    assert_eq!(encode_chain(&chain), text);
}

#[test]
fn decode_of_the_empty_array() {
    assert_eq!(decode_chain_text("[]").unwrap().len(), 0);
}

#[test]
fn decode_refuses_what_is_not_the_wire_format() {
    let refused: Vec<String> = vec![
        "".to_string(),
        "[".to_string(),
        "]".to_string(),
        "[]]".to_string(),
        "[] ".to_string(),
        " []".to_string(),
        "[,]".to_string(),
        "{}".to_string(),
        "null".to_string(),
        "not json at all".to_string(),
        format!("{} ", SMALL_CHAIN),
        format!("{}x", SMALL_CHAIN),
        SMALL_CHAIN[..SMALL_CHAIN.len() - 1].to_string(),
        SMALL_CHAIN.replace("\"timestamp\":5", "\"timestamp\":05"),
        SMALL_CHAIN.replace("\"timestamp\":5", "\"timestamp\":5.0"),
        SMALL_CHAIN.replace("\"timestamp\":5", "\"timestamp\":\"5\""),
        SMALL_CHAIN.replace("\"amount\":1", "\"amount\":99999999999999999999"),
        SMALL_CHAIN.replace("\"amount\":1,", ""),
        SMALL_CHAIN.replace("\"signature\":null", "\"signature\":nil"),
        SMALL_CHAIN.replace(",", ", "),
        SMALL_CHAIN.replace("},{", "},\n{"),
        SMALL_CHAIN.replace("\"previous\"", "\"Previous\""),
        SMALL_CHAIN.replace("alice", "al\\u0069ce"),
        "[{\"timestamp\":0,\"previous\":null,\"transactions\":[],\"hash\":null}]".to_string(),
        "[{\"previous\":null,\"timestamp\":0,\"transactions\":[],\"hash\":null,\"extra\":1}]".to_string(),
        "[{\"previous\":null,\"timestamp\":0,\"transactions\":[],\"hash\":null},]".to_string(),
    ];
    for text in refused {
        assert!(decode_chain_text(&text).is_none(), "{}", text);
    }
}

#[test]
fn decode_accepts_exactly_what_encode_writes() {
    let accepted: Vec<&str> = vec![CHAIN_1, CHAIN_2, SMALL_CHAIN, EMPTY_LEDGER, HUGE, "[]"];
    for text in accepted {
        let chain = decode_chain_text(text).unwrap();
        assert_eq!(encode_chain(&chain), text);
    }
}

#[test]
fn parse_transaction_at_a_position() {
    let text = format!("xx{},", TX_JSON);
    let chars = chars_of(&text);
    let (tx, end) = parse_transaction(&chars, 2).unwrap();
    assert_eq!(end, chars.len() - 1);
    assert_eq!(tx.from, ALICE);
    assert_eq!(tx.signature, Some(SIGNATURE.to_string()));
    assert!(parse_transaction(&chars, 0).is_none());
    assert!(parse_transaction(&chars, 3).is_none());
    assert!(parse_transaction(&chars, chars.len()).is_none());
}

#[test]
fn parse_lists_at_a_position() {
    let chars = chars_of("[]");
    let (txs, end) = parse_transactions(&chars, 0).unwrap();
    assert_eq!((txs.len(), end), (0, 2));
    let (blocks, end) = parse_blocks(&chars, 0).unwrap();
    assert_eq!((blocks.len(), end), (0, 2));
    let text = format!("[{},{}]", TX_JSON, TX_JSON);
    let chars = chars_of(&text);
    let (txs, end) = parse_transactions(&chars, 0).unwrap();
    assert_eq!((txs.len(), end), (2, chars.len()));
    assert!(parse_transactions(&chars, 1).is_none());
    let chars = chars_of(SMALL_CHAIN);
    let (block, end) = parse_block(&chars, 1).unwrap();
    assert_eq!(end, chars.len() - 1);
    assert_eq!(block.transactions.len(), 2);
    assert_eq!(block.hash, Some(SMALL_GENESIS_HASH.to_string()));
}
