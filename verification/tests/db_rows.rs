use braidpool_node::bead::{Bead, BlockHeader, CommittedMetadata, UnCommittedMetadata};
use braidpool_node::db::db_handlers::{
    after_bead_row_fetched, after_transaction_rows_fetched, bead_tuple_for_insert, parse_bead_row,
    prepare_bead_insertion, read_bead_row, FetchStep,
};
use braidpool_node::db::{BeadTuple, DBErrors};

fn test_key() -> bitcoin::PublicKey {
    let secp = bitcoin::secp256k1::Secp256k1::new();
    let sk = bitcoin::secp256k1::SecretKey::from_slice(&[7u8; 32]).unwrap();
    bitcoin::PublicKey::new(sk.public_key(&secp))
}

fn test_signature() -> bitcoin::ecdsa::Signature {
    let secp = bitcoin::secp256k1::Secp256k1::new();
    let sk = bitcoin::secp256k1::SecretKey::from_slice(&[9u8; 32]).unwrap();
    let msg = bitcoin::secp256k1::Message::from_digest([3u8; 32]);
    bitcoin::ecdsa::Signature {
        signature: secp.sign_ecdsa(&msg, &sk),
        sighash_type: bitcoin::EcdsaSighashType::All,
    }
}

fn test_bead(version: i32, nonce: u32, time: u32) -> Bead {
    Bead {
        block_header: BlockHeader {
            version,
            prev_blockhash: [0u8; 32],
            merkle_root: [0u8; 32],
            time,
            bits: 486604799,
            nonce,
        },
        committed_metadata: CommittedMetadata {
            transactions: vec![],
            parents: vec![],
            parent_bead_timestamps: vec![],
            payout_address: String::from("127.0.0.1:8888"),
            start_timestamp: 1_700_000_000,
            comm_pub_key: test_key(),
            min_target: 0x1d00ffff,
            weak_target: 0x1d00ffff,
            miner_ip: String::from("127.0.0.1"),
        },
        uncommitted_metadata: UnCommittedMetadata {
            extra_nonce: 12345,
            broadcast_timestamp: 1_700_000_100,
            signature: test_signature(),
        },
    }
}

fn bitcoin_hash_text(h: &BlockHeader) -> String {
    let header = bitcoin::block::Header {
        version: bitcoin::block::Version::from_consensus(h.version),
        prev_blockhash: <bitcoin::BlockHash as bitcoin::hashes::Hash>::from_byte_array(h.prev_blockhash),
        merkle_root: <bitcoin::TxMerkleNode as bitcoin::hashes::Hash>::from_byte_array(h.merkle_root),
        time: h.time,
        bits: bitcoin::CompactTarget::from_consensus(h.bits),
        nonce: h.nonce,
    };
    header.block_hash().to_string()
}

fn attribute_of(res: Result<(i64, Bead), DBErrors>) -> String {
    match res {
        Err(DBErrors::TupleAtrributeParsingError { attribute, .. }) => attribute,
        Err(e) => panic!("unexpected error {:?}", e),
        Ok(_) => panic!("row decoded"),
    }
}

#[test]
fn test_insert_bead() {
    // The bead is written as the first bead of an empty braid, then fetched
    // back by its hash.
    let bead = test_bead(2, 0xdeadbeef, 0x6553f100);
    let beads = vec![bead.clone()];
    let mapping = vec![(bead.block_hash(), 0usize)];
    let (index, _query, row) = prepare_bead_insertion(&bead, &beads, &mapping);
    assert_eq!(index, 0);
    assert_eq!(row.id, Some(1));
    assert_eq!(row.extra_nonce, "0000000000000000");
    let step = after_bead_row_fetched(Ok(Some(row.clone())));
    let (bead_id, fetched) = match step {
        FetchStep::FetchTransactions { bead_id, bead } => (bead_id, bead),
        other => panic!("unexpected step {:?}", other),
    };
    assert_eq!(bead_id, 1);
    let fetched = after_transaction_rows_fetched(fetched, Ok(vec![]), &beads).unwrap().unwrap();
    assert_eq!(bitcoin_hash_text(&fetched.block_header), row.hash);
    assert_eq!(bitcoin_hash_text(&fetched.block_header), bitcoin_hash_text(&bead.block_header));
}

#[test]
fn written_row_columns() {
    let bead = test_bead(2, 0xdeadbeef, 0x6553f100);
    let row = bead_tuple_for_insert(&bead, 5);
    assert_eq!(row.id, Some(5));
    assert_eq!(row.hash, bitcoin_hash_text(&bead.block_header));
    assert_eq!(row.nVersion, "00000002");
    assert_eq!(row.nNonce, "deadbeef");
    assert_eq!(row.nTime, "6553f100");
    assert_eq!(row.nBits, "1d00ffff");
    assert_eq!(row.min_target, "1d00ffff");
    assert_eq!(row.hashPrevBlock, "0".repeat(64));
    assert_eq!(row.hashMerkleRoot, "0".repeat(64));
    assert_eq!(row.payout_address, "127.0.0.1:8888");
    assert_eq!(row.miner_ip, "127.0.0.1");
    assert_eq!(row.start_timestamp, 1_700_000_000);
    assert_eq!(row.broadcast_timestamp, 1_700_000_100);
    assert_eq!(row.extra_nonce, "0000000000000000");
    assert_eq!(row.comm_pub_key, test_key().to_string());
    assert_eq!(row.signature, test_signature().to_string());
}

#[test]
fn hash_columns_are_displayed_in_reverse_byte_order() {
    let mut bead = test_bead(1, 0, 0);
    bead.block_header.prev_blockhash[0] = 0xab;
    bead.block_header.merkle_root[31] = 0x01;
    let row = bead_tuple_for_insert(&bead, 1);
    assert_eq!(row.hashPrevBlock, format!("{}ab", "0".repeat(62)));
    assert_eq!(row.hashMerkleRoot, format!("01{}", "0".repeat(62)));
    let mut stored = row.clone();
    stored.extra_nonce = String::from("7");
    let (_, decoded) = parse_bead_row(&stored).unwrap();
    assert_eq!(decoded.block_header, bead.block_header);
}

#[test]
fn written_row_reads_back_with_a_readable_extra_nonce() {
    let bead = test_bead(0x2000_0000, 42, 1_700_000_000);
    let mut row = bead_tuple_for_insert(&bead, 9);
    row.extra_nonce = String::from("-1f");
    let (id, decoded) = parse_bead_row(&row).unwrap();
    assert_eq!(id, 9);
    assert_eq!(decoded.block_header, bead.block_header);
    assert_eq!(decoded.committed_metadata.payout_address, "127.0.0.1:8888");
    assert_eq!(decoded.committed_metadata.miner_ip, "127.0.0.1");
    assert_eq!(decoded.committed_metadata.start_timestamp, 1_700_000_000);
    assert_eq!(decoded.committed_metadata.min_target, 0x1d00ffff);
    assert_eq!(decoded.committed_metadata.weak_target, 0x1d00ffff);
    assert_eq!(decoded.committed_metadata.comm_pub_key, test_key());
    assert!(decoded.committed_metadata.transactions.is_empty());
    assert!(decoded.committed_metadata.parents.is_empty());
    assert_eq!(decoded.uncommitted_metadata.extra_nonce, -0x1f);
    assert_eq!(decoded.uncommitted_metadata.broadcast_timestamp, 1_700_000_100);
    assert_eq!(decoded.uncommitted_metadata.signature, test_signature());
}

#[test]
fn written_row_reads_back_as_written() {
    let bead = test_bead(7, 99, 1_700_000_000);
    let row = bead_tuple_for_insert(&bead, 3);
    let (id, decoded) = parse_bead_row(&row).unwrap();
    assert_eq!(id, 3);
    assert_eq!(decoded.block_header, bead.block_header);
    assert_eq!(decoded.committed_metadata.comm_pub_key, bead.committed_metadata.comm_pub_key);
    assert_eq!(decoded.uncommitted_metadata.signature, bead.uncommitted_metadata.signature);
    assert_eq!(decoded.uncommitted_metadata.extra_nonce, 0);
    assert!(matches!(after_bead_row_fetched(Ok(Some(row))), FetchStep::FetchTransactions { .. }));
}

#[test]
fn negative_version_is_refused() {
    let bead = test_bead(-1, 1, 1);
    let mut row = bead_tuple_for_insert(&bead, 3);
    assert_eq!(row.nVersion, "ffffffff");
    row.extra_nonce = String::from("0");
    assert_eq!(attribute_of(parse_bead_row(&row)), "nVersion");
}

fn good_row() -> BeadTuple {
    bead_tuple_for_insert(&test_bead(2, 1, 1), 4)
}

#[test]
fn each_unparsable_column_is_named() {
    let cases: Vec<(fn(&mut BeadTuple), &str)> = vec![
        (|r| r.nVersion = String::from("zz"), "nVersion"),
        (|r| r.hashPrevBlock = String::from("00"), "hashPrevBlock"),
        (|r| r.hashMerkleRoot = "g".repeat(64), "hashMerkleRoot"),
        (|r| r.nTime = String::from(""), "nTime"),
        (|r| r.nBits = String::from("0x1d00ffff"), "nBits"),
        (|r| r.nNonce = String::from("-1"), "nNonce"),
        (|r| r.comm_pub_key = String::from("02"), "comm_pub_key"),
        (|r| r.min_target = String::from("100000000"), "min_target"),
        (|r| r.weak_target = String::from("+"), "weak_target"),
        (|r| r.extra_nonce = String::from("80000000"), "extra_nonce"),
        (|r| r.start_timestamp = 499_999_999, "startTimestamp"),
        (|r| r.signature = String::from("00"), "signature"),
        (|r| r.broadcast_timestamp = 12, "broadcastTimestamp"),
    ];
    for (spoil, attribute) in cases {
        let mut row = good_row();
        spoil(&mut row);
        assert_eq!(attribute_of(parse_bead_row(&row)), attribute);
    }
}

#[test]
fn the_first_unparsable_column_is_named() {
    let mut row = good_row();
    row.nTime = String::from("x");
    row.signature = String::from("x");
    assert_eq!(attribute_of(parse_bead_row(&row)), "nTime");
}

#[test]
fn radix16_columns_accept_signs_and_either_case() {
    let mut row = good_row();
    row.nNonce = String::from("+DEADbeef");
    row.nBits = String::from("1D00FFFF");
    row.nVersion = String::from("-80000000");
    let (_, decoded) = parse_bead_row(&row).unwrap();
    assert_eq!(decoded.block_header.nonce, 0xdeadbeef);
    assert_eq!(decoded.block_header.bits, 0x1d00ffff);
    assert_eq!(decoded.block_header.version, i32::MIN);
}

#[test]
fn default_bead_tuple() {
    let row = BeadTuple::default();
    assert_eq!(row.id, None);
    assert_eq!(row.hash, "");
    assert_eq!(row.signature, "");
    assert_eq!(row.start_timestamp, 17272);
    assert_eq!(row.broadcast_timestamp, 1231);
}

#[test]
fn rows_whose_integers_do_not_fit_are_not_read() {
    let mut row = good_row();
    row.start_timestamp = -5;
    assert!(read_bead_row(&row).is_none());
    let mut row = good_row();
    row.broadcast_timestamp = 1 << 40;
    assert!(read_bead_row(&row).is_none());
    let mut row = good_row();
    row.id = None;
    assert!(read_bead_row(&row).is_none());
    let row = good_row();
    let (id, _) = read_bead_row(&row).unwrap().unwrap();
    assert_eq!(id, 4);
}
