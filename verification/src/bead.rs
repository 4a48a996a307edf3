//! The bead: a block header with the metadata a miner commits to and the
//! metadata attached when it is broadcast.

use crate::foreign::{block_hash_to_text, clone_transactions, hash_text, header_block_hash, spec_block_hash};
use vstd::prelude::*;

verus! {

/// A bead is named by the 32 bytes of its block header's hash.
pub type BeadHash = [u8; 32];

/// A bitcoin block header, each field as its consensus value.
#[derive(Clone, Copy, Debug, PartialEq, Eq)]
pub struct BlockHeader {
    pub version: i32,
    pub prev_blockhash: [u8; 32],
    pub merkle_root: [u8; 32],
    pub time: u32,
    pub bits: u32,
    pub nonce: u32,
}

impl BlockHeader {
    /// The header's hash as bytes.
    pub open spec fn spec_hash(self) -> Seq<u8> {
        spec_block_hash(
            self.version,
            self.prev_blockhash@,
            self.merkle_root@,
            self.time,
            self.bits,
            self.nonce,
        )
    }

    pub fn block_hash(&self) -> (res: BeadHash)
        ensures
            res@ == self.spec_hash(),
    {
        header_block_hash(
            self.version,
            &self.prev_blockhash,
            &self.merkle_root,
            self.time,
            self.bits,
            self.nonce,
        )
    }
}

/// What the miner commits to. Timestamps are block times (seconds since the
/// epoch); targets are compact (`nBits`) encodings; `parents` holds each
/// parent's hash once.
#[derive(Debug)]
pub struct CommittedMetadata {
    pub transactions: Vec<bitcoin::Transaction>,
    pub parents: Vec<BeadHash>,
    pub parent_bead_timestamps: Vec<u32>,
    pub payout_address: String,
    pub start_timestamp: u32,
    pub comm_pub_key: bitcoin::PublicKey,
    pub min_target: u32,
    pub weak_target: u32,
    pub miner_ip: String,
}

/// What is attached to a bead when it is broadcast.
#[derive(Clone, Copy, Debug)]
pub struct UnCommittedMetadata {
    pub extra_nonce: i32,
    pub broadcast_timestamp: u32,
    pub signature: bitcoin::ecdsa::Signature,
}

#[derive(Debug)]
pub struct Bead {
    pub block_header: BlockHeader,
    pub committed_metadata: CommittedMetadata,
    pub uncommitted_metadata: UnCommittedMetadata,
}

pub struct CommittedMetadataView {
    pub transactions: Seq<bitcoin::Transaction>,
    pub parents: Seq<BeadHash>,
    pub parent_bead_timestamps: Seq<u32>,
    pub payout_address: Seq<char>,
    pub start_timestamp: u32,
    pub comm_pub_key: bitcoin::PublicKey,
    pub min_target: u32,
    pub weak_target: u32,
    pub miner_ip: Seq<char>,
}

pub struct BeadView {
    pub block_header: BlockHeader,
    pub committed_metadata: CommittedMetadataView,
    pub uncommitted_metadata: UnCommittedMetadata,
}

impl View for CommittedMetadata {
    type V = CommittedMetadataView;

    open spec fn view(&self) -> CommittedMetadataView {
        CommittedMetadataView {
            transactions: self.transactions@,
            parents: self.parents@,
            parent_bead_timestamps: self.parent_bead_timestamps@,
            payout_address: self.payout_address@,
            start_timestamp: self.start_timestamp,
            comm_pub_key: self.comm_pub_key,
            min_target: self.min_target,
            weak_target: self.weak_target,
            miner_ip: self.miner_ip@,
        }
    }
}

impl View for Bead {
    type V = BeadView;

    open spec fn view(&self) -> BeadView {
        BeadView {
            block_header: self.block_header,
            committed_metadata: self.committed_metadata@,
            uncommitted_metadata: self.uncommitted_metadata,
        }
    }
}

impl BeadView {
    /// The bead's hash: that of its block header.
    pub open spec fn hash(self) -> Seq<u8> {
        self.block_header.spec_hash()
    }
}

impl Clone for Bead {
    /// A copy equal to the bead in every field.
    fn clone(&self) -> (res: Self)
        ensures
            res@ == self@,
    {
        self.duplicate()
    }
}

/// A copy of a vector of hashes.
pub fn copy_hashes(v: &Vec<BeadHash>) -> (res: Vec<BeadHash>)
    ensures
        res@ == v@,
{
    let mut res: Vec<BeadHash> = Vec::new();
    for i in 0..v.len()
        invariant
            res@ == v@.take(i as int),
    {
        res.push(v[i]);
        assert(v@.take(i + 1) =~= v@.take(i as int).push(v[i as int]));
    }
    assert(v@.take(v.len() as int) =~= v@);
    res
}

/// A copy of a vector of timestamps.
pub fn copy_timestamps(v: &Vec<u32>) -> (res: Vec<u32>)
    ensures
        res@ == v@,
{
    let mut res: Vec<u32> = Vec::new();
    for i in 0..v.len()
        invariant
            res@ == v@.take(i as int),
    {
        res.push(v[i]);
        assert(v@.take(i + 1) =~= v@.take(i as int).push(v[i as int]));
    }
    assert(v@.take(v.len() as int) =~= v@);
    res
}

impl Bead {
    pub fn block_hash(&self) -> (res: BeadHash)
        ensures
            res@ == self@.hash(),
    {
        self.block_header.block_hash()
    }

    /// A copy of the bead, equal to it in every field.
    pub fn duplicate(&self) -> (res: Bead)
        ensures
            res@ == self@,
    {
        let c = &self.committed_metadata;
        Bead {
            block_header: self.block_header,
            committed_metadata: CommittedMetadata {
                transactions: clone_transactions(&c.transactions),
                parents: copy_hashes(&c.parents),
                parent_bead_timestamps: copy_timestamps(&c.parent_bead_timestamps),
                payout_address: c.payout_address.clone(),
                start_timestamp: c.start_timestamp,
                comm_pub_key: c.comm_pub_key,
                min_target: c.min_target,
                weak_target: c.weak_target,
                miner_ip: c.miner_ip.clone(),
            },
            uncommitted_metadata: self.uncommitted_metadata,
        }
    }
}


/// The display text of a bead hash (its bytes in reverse order, lower-case
/// hexadecimal), as the `hash` column holds it.
pub fn bead_hash_text(hash: &BeadHash) -> (res: String)
    ensures
        res@ == hash_text(hash@),
{
    block_hash_to_text(hash)
}

/// Whether two hashes are equal, byte by byte.
pub fn hashes_equal(a: &BeadHash, b: &BeadHash) -> (res: bool)
    ensures
        res == (a@ == b@),
{
    let mut i: usize = 0;
    while i < 32
        invariant
            i <= 32,
            a@.len() == 32,
            b@.len() == 32,
            forall|j: int| 0 <= j < i ==> a@[j] == b@[j],
        decreases 32 - i,
    {
        if a[i] != b[i] {
            return false;
        }
        i = i + 1;
    }
    assert(a@ =~= b@);
    true
}

/// Whether `h` occurs in `hashes`.
pub fn contains_hash(hashes: &Vec<BeadHash>, h: &BeadHash) -> (res: bool)
    ensures
        res == exists|i: int| 0 <= i < hashes@.len() && hashes@[i]@ == h@,
{
    let mut i: usize = 0;
    while i < hashes.len()
        invariant
            i <= hashes.len(),
            forall|j: int| 0 <= j < i ==> hashes@[j]@ != h@,
        decreases hashes.len() - i,
    {
        if hashes_equal(&hashes[i], h) {
            return true;
        }
        i = i + 1;
    }
    false
}

/// Adds to `parents` each hash of `more` that it does not hold yet, in the
/// order of `more`: a set union that keeps every hash once.
pub fn extend_parents(parents: &mut Vec<BeadHash>, more: &Vec<BeadHash>)
    ensures
        final(parents)@.to_set() == old(parents)@.to_set() + more@.to_set(),
        old(parents)@.no_duplicates() ==> final(parents)@.no_duplicates(),
        final(parents)@.take(old(parents)@.len() as int) == old(parents)@,
{
    let ghost start = parents@;
    let mut i: usize = 0;
    while i < more.len()
        invariant
            i <= more.len(),
            parents@.to_set() == start.to_set() + more@.take(i as int).to_set(),
            start.no_duplicates() ==> parents@.no_duplicates(),
            parents@.len() >= start.len(),
            parents@.take(start.len() as int) == start,
        decreases more.len() - i,
    {
        let h = more[i];
        assert(more@.take(i + 1) =~= more@.take(i as int).push(h));
        if !contains_hash(parents, &h) {
            let ghost before = parents@;
            parents.push(h);
            assert(parents@ =~= before.push(h));
            assert(parents@.take(start.len() as int) =~= before.take(start.len() as int));
            assert(!before.contains(h)) by {
                if before.contains(h) {
                    let k = choose|k: int| 0 <= k < before.len() && before[k] == h;
                    assert(before[k]@ == h@);
                }
            }
            proof {
                before.lemma_push_to_set_commute(h);
            }
        } else {
            assert(parents@.to_set().contains(h)) by {
                let k = choose|k: int| 0 <= k < parents@.len() && parents@[k]@ == h@;
                assert(parents@[k] == h);
            }
        }
        proof {
            more@.take(i as int).lemma_push_to_set_commute(h);
        }
        assert(parents@.to_set() =~= start.to_set() + more@.take(i + 1).to_set());
        i = i + 1;
    }
    assert(more@.take(more.len() as int) =~= more@);
}

} // verus!
