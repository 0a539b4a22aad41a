use blockledger::chain::{
    add_block, create_genesis_block, get_all_addresses, verify_chain, Block, Transaction,
};
use sha2::{Digest, Sha256};

fn expected_hash(index: u64, timestamp: &str, transactions: &[Transaction], previous: &str) -> String {
    let tx_data: String = transactions
        .iter()
        .map(|tx| format!("{}{}{}", tx.from, tx.to, tx.amount))
        .collect();
    let message = format!("{}{}{}{}", index, timestamp, tx_data, previous);
    format!("{:x}", Sha256::digest(message.as_bytes()))
}

#[test]
fn genesis_block_fields() {
    let genesis = create_genesis_block();
    assert_eq!(genesis.index, 0);
    assert!(genesis.transactions.is_empty());
    assert_eq!(genesis.previous_hash, "0");
    assert_eq!(genesis.hash.len(), 64);
}

#[test]
fn genesis_hash_matches_reference_digest() {
    let genesis = create_genesis_block();
    assert_eq!(genesis.hash, expected_hash(0, &genesis.timestamp, &[], "0"));
}

#[test]
fn calculate_hash_matches_reference_digest() {
    let txs = vec![
        Transaction { from: "alice".to_string(), to: "bob".to_string(), amount: 40 },
        Transaction { from: "bob".to_string(), to: "carol".to_string(), amount: 7 },
    ];
    let hash = Block::calculate_hash(5, "2024-01-01T00:00:00+00:00", &txs, "prevhash");
    assert_eq!(hash, expected_hash(5, "2024-01-01T00:00:00+00:00", &txs, "prevhash"));
}

#[test]
fn hash_round_trip_for_every_block() {
    let mut chain = vec![create_genesis_block()];
    add_block(
        &mut chain,
        vec![Transaction { from: "a".to_string(), to: "b".to_string(), amount: 1 }],
    );
    add_block(&mut chain, vec![]);
    for block in &chain {
        let recomputed = Block::calculate_hash(
            block.index,
            &block.timestamp,
            &block.transactions,
            &block.previous_hash,
        );
        assert_eq!(recomputed, block.hash);
    }
}

#[test]
fn built_chains_verify() {
    let mut chain = vec![create_genesis_block()];
    assert!(verify_chain(&chain));
    add_block(
        &mut chain,
        vec![Transaction { from: "a".to_string(), to: "b".to_string(), amount: 10 }],
    );
    assert!(verify_chain(&chain));
    add_block(
        &mut chain,
        vec![Transaction { from: "b".to_string(), to: "c".to_string(), amount: 5 }],
    );
    assert!(verify_chain(&chain));
    assert_eq!(chain.len(), 3);
    assert_eq!(chain[1].previous_hash, chain[0].hash);
    assert_eq!(chain[2].previous_hash, chain[1].hash);
    assert_eq!(chain[1].index, 1);
    assert_eq!(chain[2].index, 2);
}

#[test]
fn tampered_amount_fails_verification() {
    let mut chain = vec![create_genesis_block()];
    add_block(
        &mut chain,
        vec![Transaction { from: "a".to_string(), to: "b".to_string(), amount: 10 }],
    );
    assert!(verify_chain(&chain));
    chain[1].transactions[0].amount = 1000;
    assert!(!verify_chain(&chain));
}

#[test]
fn tampered_timestamp_fails_verification() {
    let mut chain = vec![create_genesis_block()];
    add_block(&mut chain, vec![]);
    chain[1].timestamp = "1999-01-01T00:00:00+00:00".to_string();
    assert!(!verify_chain(&chain));
}

#[test]
fn tampered_link_fails_verification() {
    let mut chain = vec![create_genesis_block()];
    add_block(&mut chain, vec![]);
    let fake_previous = expected_hash(9, "t", &[], "x");
    chain[1].previous_hash = fake_previous;
    assert!(!verify_chain(&chain));
}

#[test]
fn known_addresses_come_from_the_chain() {
    let mut chain = vec![create_genesis_block()];
    add_block(
        &mut chain,
        vec![Transaction { from: "a".to_string(), to: "b".to_string(), amount: 1 }],
    );
    add_block(
        &mut chain,
        vec![Transaction { from: "b".to_string(), to: "c".to_string(), amount: 1 }],
    );
    add_block(
        &mut chain,
        vec![Transaction { from: "c".to_string(), to: "a".to_string(), amount: 1 }],
    );
    let mut addresses = get_all_addresses(&chain);
    addresses.sort();
    assert_eq!(addresses, vec!["a".to_string(), "b".to_string(), "c".to_string()]);
}

#[test]
fn known_addresses_of_bare_genesis_is_empty() {
    let chain = vec![create_genesis_block()];
    assert!(get_all_addresses(&chain).is_empty());
}

#[test]
fn known_addresses_has_no_duplicates() {
    let mut chain = vec![create_genesis_block()];
    add_block(
        &mut chain,
        vec![
            Transaction { from: "a".to_string(), to: "a".to_string(), amount: 1 },
            Transaction { from: "a".to_string(), to: "b".to_string(), amount: 2 },
        ],
    );
    let mut addresses = get_all_addresses(&chain);
    addresses.sort();
    assert_eq!(addresses, vec!["a".to_string(), "b".to_string()]);
}
