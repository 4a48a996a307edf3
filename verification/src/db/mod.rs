//! Rows of the node's relational store and the requests and errors that go
//! with them.

#![allow(non_snake_case)]

pub mod db_handlers;

use crate::bead::Bead;
use vstd::prelude::*;

verus! {

/// A row of the `bead` table. Header fields and targets are stored as the
/// text the node writes for them; timestamps as integers.
#[derive(Debug, Clone, PartialEq)]
pub struct BeadTuple {
    pub id: Option<i64>,
    pub hash: String,
    pub nVersion: String,
    pub hashPrevBlock: String,
    pub hashMerkleRoot: String,
    pub nTime: String,
    pub nBits: String,
    pub nNonce: String,
    pub payout_address: String,
    pub start_timestamp: i64,
    pub comm_pub_key: String,
    pub min_target: String,
    pub weak_target: String,
    pub miner_ip: String,
    pub extra_nonce: String,
    pub broadcast_timestamp: i64,
    pub signature: String,
}

impl Default for BeadTuple {
    /// Every text column empty, no id, and the fixed placeholder timestamps.
    fn default() -> (res: Self)
        ensures
            res.id is None,
            res.hash@ == Seq::<char>::empty(),
            res.nVersion@ == Seq::<char>::empty(),
            res.hashPrevBlock@ == Seq::<char>::empty(),
            res.hashMerkleRoot@ == Seq::<char>::empty(),
            res.nTime@ == Seq::<char>::empty(),
            res.nBits@ == Seq::<char>::empty(),
            res.nNonce@ == Seq::<char>::empty(),
            res.payout_address@ == Seq::<char>::empty(),
            res.start_timestamp == 17272,
            res.comm_pub_key@ == Seq::<char>::empty(),
            res.min_target@ == Seq::<char>::empty(),
            res.weak_target@ == Seq::<char>::empty(),
            res.miner_ip@ == Seq::<char>::empty(),
            res.extra_nonce@ == Seq::<char>::empty(),
            res.broadcast_timestamp == 1231,
            res.signature@ == Seq::<char>::empty(),
    {
        Self {
            id: None,
            hash: String::new(),
            nVersion: String::new(),
            hashPrevBlock: String::new(),
            hashMerkleRoot: String::new(),
            nTime: String::new(),
            nBits: String::new(),
            nNonce: String::new(),
            payout_address: String::new(),
            start_timestamp: 17272,
            comm_pub_key: String::new(),
            min_target: String::new(),
            weak_target: String::new(),
            miner_ip: String::new(),
            extra_nonce: String::new(),
            broadcast_timestamp: 1231,
            signature: String::new(),
        }
    }
}

/// A row of the `Transactions` table.
#[derive(Debug, Clone, PartialEq)]
pub struct TransactionTuple {
    pub bead_id: i64,
    pub txid: String,
}

/// A row of the table of cohort ids.
#[derive(Debug, Clone, Copy, PartialEq)]
pub struct CohortIdTuple {
    pub id: i64,
}

/// A row relating a bead to its cohort.
#[derive(Debug, Clone, Copy, PartialEq)]
pub struct CohortTuple {
    pub bead_id: i64,
    pub cohort_id: Option<i64>,
}

/// A row of the `Relatives` table.
#[derive(Debug, Clone, Copy, PartialEq)]
pub struct RelativeTuple {
    pub parent: i64,
    pub child: i64,
}

/// A row of the `ParentTimestamps` table.
#[derive(Debug, Clone, Copy, PartialEq)]
pub struct ParentTimestampTuple {
    pub parent: i64,
    pub child: i64,
    pub timestamp: i64,
}

/// A row relating a bead to one of its ancestors.
#[derive(Debug, Clone, Copy, PartialEq)]
pub struct AncestorTimestampTuple {
    pub bead_id: i64,
    pub ancestor: i64,
    pub timestamp: i64,
}

/// An insertion request for one of the tables, or for a whole bead with its
/// relatives.
#[derive(Debug, Clone)]
pub enum InsertTupleTypes {
    BeadTuple { bead_tuple: BeadTuple },
    TransactionTuple { transaction_tuple: TransactionTuple },
    CohortIdTuple { cohort_id_tuple: CohortIdTuple },
    CohortTuple { cohort_tuple: CohortTuple },
    RelativeTuple { relative_tuple: RelativeTuple },
    ParentTimestampTuple { parent_timestamp_tuple: ParentTimestampTuple },
    AncestorTimestampTuple { ancestor_timestamp_tuple: AncestorTimestampTuple },
    InsertBeadSequentially { bead_to_insert: Bead },
}

/// A request to the database task.
#[derive(Debug, Clone)]
pub enum BraidpoolDBTypes {
    InsertTupleTypes { query: InsertTupleTypes },
}

/// Failures of the database task. `error` holds the message of the
/// underlying failure.
#[derive(Debug, Clone, PartialEq)]
pub enum DBErrors {
    ConnectionToDBNotEstablished { error: String },
    TransactionNotRolledBack { error: String, query: String },
    InsertionTransactionNotCommitted { error: String, query_name: String },
    TupleAtrributeParsingError { error: String, attribute: String },
    TupleNotFetched { error: String },
}

} // verus!
