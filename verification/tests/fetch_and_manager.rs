use braidpool_node::bead::{
    extend_parents, Bead, BeadHash, BlockHeader, CommittedMetadata, UnCommittedMetadata,
};
use braidpool_node::braid_manager::{tip_hashes, AddBeadStatus, BraidManager};
use braidpool_node::database::{collect_rows, first_row, Database};
use braidpool_node::db::db_handlers::{
    after_bead_row_fetched, after_transaction_rows_fetched, bead_tuple_for_insert,
    prepare_bead_insertion, FetchStep,
};
use braidpool_node::db::{DBErrors, TransactionTuple};

fn test_key() -> bitcoin::PublicKey {
    let secp = bitcoin::secp256k1::Secp256k1::new();
    let sk = bitcoin::secp256k1::SecretKey::from_slice(&[7u8; 32]).unwrap();
    bitcoin::PublicKey::new(sk.public_key(&secp))
}

fn test_signature() -> bitcoin::ecdsa::Signature {
    let secp = bitcoin::secp256k1::Secp256k1::new();
    let sk = bitcoin::secp256k1::SecretKey::from_slice(&[9u8; 32]).unwrap();
    let msg = bitcoin::secp256k1::Message::from_digest([3u8; 32]);
    bitcoin::ecdsa::Signature {
        signature: secp.sign_ecdsa(&msg, &sk),
        sighash_type: bitcoin::EcdsaSighashType::All,
    }
}

fn bead_with(nonce: u32, parents: Vec<BeadHash>, timestamps: Vec<u32>) -> Bead {
    Bead {
        block_header: BlockHeader {
            version: 2,
            prev_blockhash: [1u8; 32],
            merkle_root: [2u8; 32],
            time: 1,
            bits: 486604799,
            nonce,
        },
        committed_metadata: CommittedMetadata {
            transactions: vec![],
            parents,
            parent_bead_timestamps: timestamps,
            payout_address: String::from("addr"),
            start_timestamp: 1_700_000_000,
            comm_pub_key: test_key(),
            min_target: 1,
            weak_target: 1,
            miner_ip: String::from("ip"),
        },
        uncommitted_metadata: UnCommittedMetadata {
            extra_nonce: 0,
            broadcast_timestamp: 1_700_000_000,
            signature: test_signature(),
        },
    }
}

#[test]
fn fetch_query_failure_is_reported() {
    match after_bead_row_fetched(Err(String::from("locked"))) {
        FetchStep::Done(Err(DBErrors::TupleNotFetched { error })) => assert_eq!(error, "locked"),
        other => panic!("unexpected {:?}", other),
    }
    match after_transaction_rows_fetched(bead_with(0, vec![], vec![]), Err(String::from("gone")), &vec![]) {
        Err(DBErrors::TupleNotFetched { error }) => assert_eq!(error, "gone"),
        other => panic!("unexpected {:?}", other),
    }
}

#[test]
fn missing_row_or_id_minus_one_is_no_bead() {
    assert!(matches!(after_bead_row_fetched(Ok(None)), FetchStep::Done(Ok(None))));
    let mut row = bead_tuple_for_insert(&bead_with(0, vec![], vec![]), 0);
    row.extra_nonce = String::from("0");
    row.id = Some(-1);
    assert!(matches!(after_bead_row_fetched(Ok(Some(row))), FetchStep::Done(Ok(None))));
}

#[test]
fn fetched_bead_takes_relatives_from_the_braid() {
    let p1 = [10u8; 32];
    let p2 = [11u8; 32];
    let braid = vec![bead_with(5, vec![p1, p2], vec![1_600_000_000, 1_600_000_001])];
    let mut row = bead_tuple_for_insert(&bead_with(0, vec![], vec![]), 1);
    row.extra_nonce = String::from("0");
    let bead = match after_bead_row_fetched(Ok(Some(row))) {
        FetchStep::FetchTransactions { bead_id, bead } => {
            assert_eq!(bead_id, 1);
            bead
        }
        other => panic!("unexpected {:?}", other),
    };
    let rows = vec![
        TransactionTuple { bead_id: 1, txid: String::from("t1") },
        TransactionTuple { bead_id: 7, txid: String::from("t2") },
    ];
    let fetched = after_transaction_rows_fetched(bead, Ok(rows), &braid).unwrap().unwrap();
    assert_eq!(fetched.committed_metadata.parents, vec![p1, p2]);
    assert_eq!(fetched.committed_metadata.parent_bead_timestamps, vec![1_600_000_000, 1_600_000_001]);
    assert!(fetched.committed_metadata.transactions.is_empty());
    assert_eq!(fetched.block_header.nonce, 0);
}

#[test]
fn extending_parents_keeps_each_hash_once() {
    let mut parents = vec![[1u8; 32], [2u8; 32]];
    extend_parents(&mut parents, &vec![[2u8; 32], [3u8; 32], [3u8; 32]]);
    assert_eq!(parents, vec![[1u8; 32], [2u8; 32], [3u8; 32]]);
}

#[test]
fn manager_stores_only_accepted_beads() {
    let mut manager = BraidManager::new(vec![]);
    assert_eq!(manager.stored_count(), 0);
    let a = bead_with(1, vec![], vec![]);
    let ha = a.block_hash();
    assert_eq!(manager.add_bead(a, false), AddBeadStatus::InvalidBead);
    assert_eq!(manager.stored_count(), 0);
    assert!(manager.get_bead(&ha).is_none());
    let a = bead_with(1, vec![], vec![]);
    assert_eq!(manager.add_bead(a, true), AddBeadStatus::BeadAdded);
    assert_eq!(manager.stored_count(), 1);
    let found = manager.get_bead(&ha).unwrap();
    assert_eq!(found.block_hash(), ha);
    assert_eq!(found.block_header.nonce, 1);
    assert!(manager.get_bead(&[0u8; 32]).is_none());
}

#[test]
fn manager_answers_with_the_first_bead_of_a_hash() {
    let mut manager = BraidManager::new(vec![]);
    let mut first = bead_with(3, vec![], vec![]);
    first.committed_metadata.miner_ip = String::from("first");
    let h = first.block_hash();
    manager.add_bead(first, true);
    let mut second = bead_with(3, vec![], vec![]);
    second.committed_metadata.miner_ip = String::from("second");
    manager.add_bead(second, true);
    assert_eq!(manager.get_bead(&h).unwrap().committed_metadata.miner_ip, "first");
}

#[test]
fn tips_are_named_by_hash() {
    let beads = vec![bead_with(0, vec![], vec![]), bead_with(1, vec![], vec![])];
    let tips = tip_hashes(&beads, &vec![1, 0]);
    assert_eq!(tips, vec![beads[1].block_hash(), beads[0].block_hash()]);
}

#[test]
fn database_keeps_its_path() {
    let db = Database::new("database.db3");
    assert_eq!(db.db_path(), "database.db3");
}

#[test]
fn rows_are_collected_until_the_first_failure() {
    let ok: Vec<Result<i32, String>> = vec![Ok(1), Ok(2)];
    assert_eq!(collect_rows(ok), Ok(vec![1, 2]));
    let bad: Vec<Result<i32, String>> = vec![Ok(1), Err(String::from("a")), Err(String::from("b"))];
    assert_eq!(collect_rows(bad), Err(String::from("a")));
    assert_eq!(first_row::<i32, String>(None), Ok(None));
    assert_eq!(first_row::<i32, String>(Some(Ok(4))), Ok(Some(4)));
    assert_eq!(first_row::<i32, String>(Some(Err(String::from("e")))), Err(String::from("e")));
}

#[test]
fn a_found_bead_is_a_full_copy() {
    let mut manager = BraidManager::new(vec![]);
    let mut bead = bead_with(8, vec![[4u8; 32]], vec![1_650_000_000]);
    bead.committed_metadata.transactions = vec![bitcoin::Transaction {
        version: bitcoin::transaction::Version::ONE,
        lock_time: bitcoin::absolute::LockTime::ZERO,
        input: vec![],
        output: vec![],
    }];
    let h = bead.block_hash();
    manager.add_bead(bead, true);
    let found = manager.get_bead(&h).unwrap();
    assert_eq!(found.committed_metadata.transactions.len(), 1);
    assert_eq!(found.committed_metadata.transactions[0].version, bitcoin::transaction::Version::ONE);
    assert_eq!(found.committed_metadata.parents, vec![[4u8; 32]]);
    assert_eq!(found.committed_metadata.parent_bead_timestamps, vec![1_650_000_000]);
    assert_eq!(found.committed_metadata.comm_pub_key, test_key());
    assert_eq!(found.uncommitted_metadata.signature, test_signature());
}

#[test]
fn bead_hash_text_is_the_hash_column() {
    let bead = bead_with(2, vec![], vec![]);
    let row = bead_tuple_for_insert(&bead, 1);
    assert_eq!(braidpool_node::bead::bead_hash_text(&bead.block_hash()), row.hash);
    let mut h = [0u8; 32];
    h[0] = 0x12;
    assert_eq!(braidpool_node::bead::bead_hash_text(&h), format!("{}12", "0".repeat(62)));
}

#[test]
fn a_cloned_bead_equals_the_original() {
    let bead = bead_with(6, vec![[3u8; 32]], vec![1_600_000_000]);
    let copy = bead.clone();
    assert_eq!(copy.block_header, bead.block_header);
    assert_eq!(copy.committed_metadata.parents, bead.committed_metadata.parents);
    assert_eq!(copy.committed_metadata.comm_pub_key, bead.committed_metadata.comm_pub_key);
}

#[test]
fn genesis_beads_are_found_by_hash() {
    let g0 = bead_with(20, vec![], vec![]);
    let g1 = bead_with(21, vec![], vec![]);
    let (h0, h1) = (g0.block_hash(), g1.block_hash());
    let mut manager = BraidManager::new(vec![g0, g1]);
    assert_eq!(manager.stored_count(), 2);
    assert_eq!(manager.get_bead(&h0).unwrap().block_header.nonce, 20);
    assert_eq!(manager.get_bead(&h1).unwrap().block_header.nonce, 21);
    let b = bead_with(22, vec![h0], vec![1_700_000_000]);
    let hb = b.block_hash();
    assert_eq!(manager.add_bead(b, true), AddBeadStatus::BeadAdded);
    assert_eq!(manager.stored_count(), 3);
    assert_eq!(manager.get_bead(&hb).unwrap().block_header.nonce, 22);
    assert_eq!(manager.get_bead(&h0).unwrap().block_header.nonce, 20);
}

#[test]
fn written_bead_reads_back_its_own_parents() {
    let b0 = bead_with(30, vec![], vec![]);
    let h0 = b0.block_hash();
    let b1 = bead_with(31, vec![], vec![]);
    let h1 = b1.block_hash();
    let b2 = bead_with(32, vec![h0, h1], vec![1_700_000_000, 1_700_000_001]);
    let h2 = b2.block_hash();
    let beads = vec![b0, b1, b2.clone()];
    let mapping = vec![(h0, 0usize), (h1, 1usize), (h2, 2usize)];
    let (index, _query, row) = prepare_bead_insertion(&b2, &beads, &mapping);
    assert_eq!(index, 2);
    assert_eq!(row.id, Some(3));
    let (row_id, decoded) = match after_bead_row_fetched(Ok(Some(row))) {
        FetchStep::FetchTransactions { bead_id, bead } => (bead_id, bead),
        other => panic!("unexpected {:?}", other),
    };
    assert_eq!(row_id, 3);
    assert!(decoded.committed_metadata.parents.is_empty());
    let rows = vec![TransactionTuple { bead_id: row_id, txid: String::from("t") }];
    let fetched = after_transaction_rows_fetched(decoded, Ok(rows), &beads).unwrap().unwrap();
    assert_eq!(fetched.committed_metadata.parents, vec![h0, h1]);
    assert_eq!(fetched.committed_metadata.parent_bead_timestamps, vec![1_700_000_000, 1_700_000_001]);
    assert_eq!(fetched.block_header.nonce, 32);
}
