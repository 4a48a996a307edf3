use braidpool_node::bead::{Bead, BeadHash, BlockHeader, CommittedMetadata, UnCommittedMetadata};
use braidpool_node::db::db_handlers::{
    after_insert_executed, after_rollback_executed, bead_insert_batch, bead_insert_query,
    braid_parent_sets, lookup_bead_index, prepare_bead_insertion, set_members, transaction_ids,
    InsertStep,
};
use braidpool_node::db::DBErrors;
use std::collections::{HashMap, HashSet};

const HEAD: &str = "\n        BEGIN TRANSACTION;\n        INSERT INTO bead (\n            id,hash, nVersion, hashPrevBlock, hashMerkleRoot, nTime, \n            nBits, nNonce, payout_address, start_timestamp, comm_pub_key,\n            min_target, weak_target, miner_ip, extra_nonce, \n            broadcast_timestamp, signature\n        ) VALUES (?,?, ?, ?, ?, ?, ?, ?, ?, ?, ?, ?, ?, ?, ?, ?, ?);\n";

fn test_key() -> bitcoin::PublicKey {
    let secp = bitcoin::secp256k1::Secp256k1::new();
    let sk = bitcoin::secp256k1::SecretKey::from_slice(&[7u8; 32]).unwrap();
    bitcoin::PublicKey::new(sk.public_key(&secp))
}

fn test_signature() -> bitcoin::ecdsa::Signature {
    let secp = bitcoin::secp256k1::Secp256k1::new();
    let sk = bitcoin::secp256k1::SecretKey::from_slice(&[9u8; 32]).unwrap();
    let msg = bitcoin::secp256k1::Message::from_digest([3u8; 32]);
    bitcoin::ecdsa::Signature {
        signature: secp.sign_ecdsa(&msg, &sk),
        sighash_type: bitcoin::EcdsaSighashType::All,
    }
}

fn bead_with(nonce: u32, start_timestamp: u32, parents: Vec<BeadHash>) -> Bead {
    Bead {
        block_header: BlockHeader {
            version: 2,
            prev_blockhash: [0u8; 32],
            merkle_root: [0u8; 32],
            time: 1,
            bits: 486604799,
            nonce,
        },
        committed_metadata: CommittedMetadata {
            transactions: vec![],
            parents,
            parent_bead_timestamps: vec![],
            payout_address: String::from("addr"),
            start_timestamp,
            comm_pub_key: test_key(),
            min_target: 1,
            weak_target: 1,
            miner_ip: String::from("ip"),
        },
        uncommitted_metadata: UnCommittedMetadata {
            extra_nonce: 0,
            broadcast_timestamp: start_timestamp,
            signature: test_signature(),
        },
    }
}

fn empty_tx() -> bitcoin::Transaction {
    bitcoin::Transaction {
        version: bitcoin::transaction::Version::TWO,
        lock_time: bitcoin::absolute::LockTime::ZERO,
        input: vec![],
        output: vec![],
    }
}

#[test]
fn batch_without_relatives_or_transactions() {
    let q = bead_insert_query(0, &vec![], &vec![], &vec![]);
    assert_eq!(q, format!("{} COMMIT;", HEAD));
}

#[test]
fn batch_with_parents() {
    let beads = vec![
        bead_with(0, 1_600_000_000, vec![]),
        bead_with(1, 1_700_000_000, vec![]),
        bead_with(2, 1_800_000_000, vec![]),
    ];
    let q = bead_insert_query(3, &vec![0, 2], &beads, &vec![]);
    let expected = format!(
        "{}{}{} COMMIT;",
        HEAD,
        "INSERT INTO Relatives (child, parent) VALUES (4, 1), (4, 3);",
        "INSERT INTO ParentTimestamps (parent, child, timestamp) VALUES (1, 4, 1600000000), (3, 4, 1800000000);"
    );
    assert_eq!(q, expected);
}

#[test]
fn batch_with_transactions() {
    let txids = vec![String::from("aa"), String::from("bb")];
    let q = bead_insert_query(7, &vec![], &vec![], &txids);
    let expected = format!(
        "{}INSERT INTO Transactions (bead_id, txid) VALUES (last_insert_rowid(), 'aa'), (last_insert_rowid(), 'bb');\n                             COMMIT;",
        HEAD
    );
    assert_eq!(q, expected);
}

#[test]
fn transaction_ids_are_displayed_txids() {
    let mut bead = bead_with(0, 1_600_000_000, vec![]);
    let mut other = empty_tx();
    other.version = bitcoin::transaction::Version::ONE;
    bead.committed_metadata.transactions = vec![empty_tx(), other.clone()];
    let ids = transaction_ids(&bead);
    assert_eq!(ids, vec![empty_tx().compute_txid().to_string(), other.compute_txid().to_string()]);
    assert_ne!(ids[0], ids[1]);
    assert_eq!(ids[0].len(), 64);
}

#[test]
fn members_of_a_set() {
    let set: HashSet<usize> = [4, 1, 9].into_iter().collect();
    let mut members = set_members(&set);
    members.sort();
    assert_eq!(members, vec![1, 4, 9]);
}

#[test]
fn batch_from_parent_sets() {
    let beads = vec![
        bead_with(0, 1_600_000_000, vec![]),
        bead_with(1, 1_700_000_000, vec![]),
        bead_with(2, 1_800_000_000, vec![]),
    ];
    let mut sets: HashMap<usize, HashSet<usize>> = HashMap::new();
    sets.insert(2, [0usize, 1].into_iter().collect());
    let (q, row) = bead_insert_batch(&beads[2], 2, &sets, &beads);
    let first = format!(
        "{}INSERT INTO Relatives (child, parent) VALUES (3, 1), (3, 2);INSERT INTO ParentTimestamps (parent, child, timestamp) VALUES (1, 3, 1600000000), (2, 3, 1700000000); COMMIT;",
        HEAD
    );
    let second = format!(
        "{}INSERT INTO Relatives (child, parent) VALUES (3, 2), (3, 1);INSERT INTO ParentTimestamps (parent, child, timestamp) VALUES (2, 3, 1700000000), (1, 3, 1600000000); COMMIT;",
        HEAD
    );
    assert!(q == first || q == second);
    assert_eq!(row.id, Some(3));
}

#[test]
fn parent_sets_and_insertion_from_the_braid() {
    let b0 = bead_with(0, 1_600_000_000, vec![]);
    let h0 = b0.block_hash();
    let b1 = bead_with(1, 1_700_000_000, vec![h0]);
    let h1 = b1.block_hash();
    let mapping = vec![(h0, 0usize), (h1, 1usize)];
    let beads = vec![b0, b1];
    assert_eq!(lookup_bead_index(&mapping, &h1), Some(1));
    assert_eq!(lookup_bead_index(&mapping, &[5u8; 32]), None);
    let sets = braid_parent_sets(&beads, &mapping);
    assert_eq!(sets.len(), 2);
    assert!(sets[&0].is_empty());
    assert_eq!(sets[&1], [0usize].into_iter().collect::<HashSet<usize>>());
    let (bead_id, q, row) = prepare_bead_insertion(&beads[1], &beads, &mapping);
    assert_eq!(bead_id, 1);
    assert_eq!(row.id, Some(2));
    assert_eq!(
        q,
        format!(
            "{}INSERT INTO Relatives (child, parent) VALUES (2, 1);INSERT INTO ParentTimestamps (parent, child, timestamp) VALUES (1, 2, 1600000000); COMMIT;",
            HEAD
        )
    );
}

#[test]
fn insertion_outcomes() {
    assert!(matches!(after_insert_executed(Ok(())), InsertStep::Committed));
    match after_insert_executed(Err(String::from("disk full"))) {
        InsertStep::RollBack { error } => assert_eq!(error, "disk full"),
        InsertStep::Committed => panic!("committed"),
    }
    assert_eq!(
        after_rollback_executed(String::from("disk full"), Ok(())),
        Err(DBErrors::InsertionTransactionNotCommitted {
            error: String::from("disk full"),
            query_name: String::from("Combined insert transaction"),
        })
    );
    assert_eq!(
        after_rollback_executed(String::from("disk full"), Err(String::from("no transaction"))),
        Err(DBErrors::TransactionNotRolledBack {
            error: String::from("no transaction"),
            query: String::from("Combined insert transaction"),
        })
    );
}
