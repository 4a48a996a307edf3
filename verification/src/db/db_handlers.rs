//! What the database task computes: the `bead` row written for a bead, the
//! decoding of such a row, the SQL batch that records a bead with its
//! relatives, and the decisions taken on the outcome of each query.

use crate::bead::{
    copy_timestamps, extend_parents, hashes_equal, Bead, BeadHash, BeadView, BlockHeader,
    CommittedMetadata, CommittedMetadataView, UnCommittedMetadata,
};
use crate::db::{BeadTuple, DBErrors, TransactionTuple};
use crate::foreign::{
    block_hash_from_text, block_hash_to_text, block_time_from_u32, compact_target_from_unprefixed_hex,
    compact_target_to_hex, has_hex_prefix, hash_of_text, hash_text, hex_encode, i32_from_hex_text,
    is_hash_text, merkle_node_from_text, merkle_node_to_text, public_key_from_text,
    public_key_text_parses, public_key_to_text, signature_from_text, signature_text_parses,
    signature_to_text, spec_public_key_of_text, spec_public_key_text, spec_signature_of_text,
    spec_signature_text, spec_txid, transaction_txid, txid_to_text, u32_from_hex_text, u64_to_decimal,
};
use crate::text::{
    all_hex_digits, be_bytes_u32, decimal_numeral, hex_digits_value, hex_of_bytes, is_hex_digit, join,
    lemma_be_bytes_u32, lemma_hex_of_bytes, lemma_lower_hex_numeral, lower_hex_numeral,
    parse_i32_radix16, parse_u32_radix16,
};
use std::collections::{HashMap, HashSet};
use vstd::prelude::*;

verus! {

/// Text written to the `extra_nonce` column of a new bead row, until the
/// extra nonce is stored in two halves: sixteen zeros, which read back as 0.
pub open spec fn extra_nonce_placeholder() -> Seq<char> {
    "0000000000000000"@
}

/// Whether `s` is accepted as a compact target: no `0x` prefix and a radix-16 `u32`.
pub open spec fn is_compact_text(s: Seq<char>) -> bool {
    !has_hex_prefix(s) && parse_u32_radix16(s) is Some
}

/// The id of the `bead` row that records the braid bead at `index`: bead
/// rows count from 1, so the braid index is the row id less one.
pub open spec fn row_id_of_index(index: usize) -> nat {
    index as nat + 1
}

/// `row` is the `bead` row written for `bead` under the id `row_id`.
pub open spec fn row_of_bead(row: BeadTuple, bead: BeadView, row_id: usize) -> bool {
    let h = bead.block_header;
    let c = bead.committed_metadata;
    let u = bead.uncommitted_metadata;
    &&& row.id == Some(row_id as i64)
    &&& row.hash@ == hash_text(bead.hash())
    &&& row.nVersion@ == hex_of_bytes(be_bytes_u32(h.version as u32))
    &&& row.hashPrevBlock@ == hash_text(h.prev_blockhash@)
    &&& row.hashMerkleRoot@ == hash_text(h.merkle_root@)
    &&& row.nTime@ == hex_of_bytes(be_bytes_u32(h.time))
    &&& row.nBits@ == lower_hex_numeral(h.bits as nat)
    &&& row.nNonce@ == hex_of_bytes(be_bytes_u32(h.nonce))
    &&& row.payout_address@ == c.payout_address
    &&& row.start_timestamp == c.start_timestamp as i64
    &&& row.comm_pub_key@ == spec_public_key_text(c.comm_pub_key)
    &&& public_key_text_parses(row.comm_pub_key@)
    &&& spec_public_key_of_text(row.comm_pub_key@) == c.comm_pub_key
    &&& row.min_target@ == lower_hex_numeral(c.min_target as nat)
    &&& row.weak_target@ == lower_hex_numeral(c.weak_target as nat)
    &&& row.miner_ip@ == c.miner_ip
    &&& row.extra_nonce@ == extra_nonce_placeholder()
    &&& row.broadcast_timestamp == u.broadcast_timestamp as i64
    &&& row.signature@ == spec_signature_text(u.signature)
    &&& signature_text_parses(row.signature@)
    &&& spec_signature_of_text(row.signature@) == u.signature
}

/// The big-endian bytes of a 32-bit word.
fn be_bytes(x: u32) -> (res: Vec<u8>)
    ensures
        res@ == be_bytes_u32(x),
{
    let res = vec![
        (x / 0x100_0000) as u8,
        ((x / 0x1_0000) % 256) as u8,
        ((x / 0x100) % 256) as u8,
        (x % 256) as u8,
    ];
    assert(res@ =~= be_bytes_u32(x));
    res
}

/// The `bead` row written for `bead` under the id `row_id`: the header's hash
/// and previous hash and merkle root in display form, version, time and nonce
/// as eight hexadecimal digits of their big-endian bytes, targets in compact
/// hexadecimal, keys and signatures in their text form, and the extra-nonce
/// placeholder.
pub fn bead_tuple_for_insert(bead: &Bead, row_id: usize) -> (row: BeadTuple)
    ensures
        row_of_bead(row, bead@, row_id),
        row.hash@ == hash_text(bead.block_header.spec_hash()),
{
    let h = &bead.block_header;
    let c = &bead.committed_metadata;
    let u = &bead.uncommitted_metadata;
    let hash = bead.block_hash();
    let version_bytes = be_bytes(h.version as u32);
    let time_bytes = be_bytes(h.time);
    let nonce_bytes = be_bytes(h.nonce);
    BeadTuple {
        id: Some(row_id as i64),
        hash: block_hash_to_text(&hash),
        nVersion: hex_encode(version_bytes.as_slice()),
        hashPrevBlock: block_hash_to_text(&h.prev_blockhash),
        hashMerkleRoot: merkle_node_to_text(&h.merkle_root),
        nTime: hex_encode(time_bytes.as_slice()),
        nBits: compact_target_to_hex(h.bits),
        nNonce: hex_encode(nonce_bytes.as_slice()),
        payout_address: c.payout_address.clone(),
        start_timestamp: c.start_timestamp as i64,
        comm_pub_key: public_key_to_text(&c.comm_pub_key),
        min_target: compact_target_to_hex(c.min_target),
        weak_target: compact_target_to_hex(c.weak_target),
        miner_ip: c.miner_ip.clone(),
        extra_nonce: String::from_str("0000000000000000"),
        broadcast_timestamp: u.broadcast_timestamp as i64,
        signature: signature_to_text(&u.signature),
    }
}

/// Law (a written row is keyed by its bead's own hash): the `hash` column of
/// the row written for a bead is the display text of that bead's header hash,
/// the text under which the bead is looked up (`bead_hash_text`); the row
/// carries the id it was written under, and the header and metadata columns
/// spell the bead's own fields.
pub proof fn lemma_written_row_columns(row: BeadTuple, bead: BeadView, row_id: usize)
    requires
        row_of_bead(row, bead, row_id),
    ensures
        row.hash@ == hash_text(bead.block_header.spec_hash()),
        row.id == Some(row_id as i64),
        row.hashPrevBlock@ == hash_text(bead.block_header.prev_blockhash@),
        row.hashMerkleRoot@ == hash_text(bead.block_header.merkle_root@),
        row.nBits@ == lower_hex_numeral(bead.block_header.bits as nat),
        row.min_target@ == lower_hex_numeral(bead.committed_metadata.min_target as nat),
        row.weak_target@ == lower_hex_numeral(bead.committed_metadata.weak_target as nat),
        row.payout_address@ == bead.committed_metadata.payout_address,
        row.miner_ip@ == bead.committed_metadata.miner_ip,
        row.start_timestamp == bead.committed_metadata.start_timestamp as int,
        row.broadcast_timestamp == bead.uncommitted_metadata.broadcast_timestamp as int,
        spec_public_key_of_text(row.comm_pub_key@) == bead.committed_metadata.comm_pub_key,
        spec_signature_of_text(row.signature@) == bead.uncommitted_metadata.signature,
{
}

/// The first text column, in the order the columns are read back, that does
/// not parse; `None` when they all do.
pub open spec fn first_unparsable_text_column(row: BeadTuple) -> Option<Seq<char>> {
    if parse_i32_radix16(row.nVersion@) is None {
        Some("nVersion"@)
    } else if !is_hash_text(row.hashPrevBlock@) {
        Some("hashPrevBlock"@)
    } else if !is_hash_text(row.hashMerkleRoot@) {
        Some("hashMerkleRoot"@)
    } else if parse_u32_radix16(row.nTime@) is None {
        Some("nTime"@)
    } else if !is_compact_text(row.nBits@) {
        Some("nBits"@)
    } else if parse_u32_radix16(row.nNonce@) is None {
        Some("nNonce"@)
    } else if !public_key_text_parses(row.comm_pub_key@) {
        Some("comm_pub_key"@)
    } else if !is_compact_text(row.min_target@) {
        Some("min_target"@)
    } else if !is_compact_text(row.weak_target@) {
        Some("weak_target"@)
    } else if parse_i32_radix16(row.extra_nonce@) is None {
        Some("extra_nonce"@)
    } else {
        None
    }
}

/// The attribute named in the error of decoding `row`, in reading order;
/// `None` when the row decodes.
pub open spec fn first_invalid_attribute(row: BeadTuple) -> Option<Seq<char>> {
    if first_unparsable_text_column(row) is Some {
        first_unparsable_text_column(row)
    } else if row.start_timestamp < 500_000_000 {
        Some("startTimestamp"@)
    } else if !signature_text_parses(row.signature@) {
        Some("signature"@)
    } else if row.broadcast_timestamp < 500_000_000 {
        Some("broadcastTimestamp"@)
    } else {
        None
    }
}

/// Law (which rows decode): a row decodes exactly when its version, time and
/// nonce are radix-16 integers of their types, its previous-block and merkle
/// hashes are hash text, its bits and targets are unprefixed radix-16 `u32`s,
/// its key and signature parse, its extra nonce is a radix-16 `i32`, and both
/// timestamps are block times (at least 500000000). When it does not, the
/// attribute named is one whose column fails.
pub proof fn lemma_decodable_row(row: BeadTuple)
    ensures
        first_invalid_attribute(row) is None <==> {
            &&& parse_i32_radix16(row.nVersion@) is Some
            &&& is_hash_text(row.hashPrevBlock@)
            &&& is_hash_text(row.hashMerkleRoot@)
            &&& parse_u32_radix16(row.nTime@) is Some
            &&& !has_hex_prefix(row.nBits@) && parse_u32_radix16(row.nBits@) is Some
            &&& parse_u32_radix16(row.nNonce@) is Some
            &&& public_key_text_parses(row.comm_pub_key@)
            &&& !has_hex_prefix(row.min_target@) && parse_u32_radix16(row.min_target@) is Some
            &&& !has_hex_prefix(row.weak_target@) && parse_u32_radix16(row.weak_target@) is Some
            &&& parse_i32_radix16(row.extra_nonce@) is Some
            &&& row.start_timestamp >= 500_000_000
            &&& signature_text_parses(row.signature@)
            &&& row.broadcast_timestamp >= 500_000_000
        },
        first_invalid_attribute(row) == Some("nVersion"@) ==> parse_i32_radix16(row.nVersion@) is None,
        first_invalid_attribute(row) == Some("startTimestamp"@) ==> row.start_timestamp < 500_000_000,
        first_invalid_attribute(row) == Some("broadcastTimestamp"@) ==> row.broadcast_timestamp
            < 500_000_000,
        first_invalid_attribute(row) == Some("signature"@) ==> !signature_text_parses(row.signature@),
{
    reveal_strlit("nVersion");
    reveal_strlit("hashPrevBlock");
    reveal_strlit("hashMerkleRoot");
    reveal_strlit("nTime");
    reveal_strlit("nBits");
    reveal_strlit("nNonce");
    reveal_strlit("comm_pub_key");
    reveal_strlit("min_target");
    reveal_strlit("weak_target");
    reveal_strlit("extra_nonce");
    reveal_strlit("startTimestamp");
    reveal_strlit("signature");
    reveal_strlit("broadcastTimestamp");
    assert("nVersion"@.len() == 8);
    assert("hashPrevBlock"@.len() == 13);
    assert("hashMerkleRoot"@.len() == 14 && "hashMerkleRoot"@[0] == 'h');
    assert("nTime"@.len() == 5);
    assert("nBits"@.len() == 5);
    assert("nNonce"@.len() == 6);
    assert("comm_pub_key"@.len() == 12);
    assert("min_target"@.len() == 10);
    assert("weak_target"@.len() == 11);
    assert("extra_nonce"@.len() == 11);
    assert("startTimestamp"@.len() == 14 && "startTimestamp"@[0] == 's');
    assert("signature"@.len() == 9);
    assert("broadcastTimestamp"@.len() == 18);
}

/// The integer columns that decoding reads fit their types. Decoding reads
/// each timestamp as a `u32` once the columns before it have parsed, and the
/// id once the whole row has.
pub open spec fn row_is_readable(row: BeadTuple) -> bool {
    &&& first_unparsable_text_column(row) is None ==> 0 <= row.start_timestamp <= u32::MAX
    &&& (first_unparsable_text_column(row) is None && row.start_timestamp >= 500_000_000
        && signature_text_parses(row.signature@)) ==> 0 <= row.broadcast_timestamp <= u32::MAX
    &&& first_invalid_attribute(row) is None ==> row.id is Some
}

/// `bead` is what decoding `row` yields: each field parsed from its column,
/// and no transactions, parents or parent timestamps.
pub open spec fn bead_of_row(bead: BeadView, row: BeadTuple) -> bool {
    let h = bead.block_header;
    let c = bead.committed_metadata;
    let u = bead.uncommitted_metadata;
    &&& Some(h.version as int) == parse_i32_radix16(row.nVersion@)
    &&& h.prev_blockhash@ == hash_of_text(row.hashPrevBlock@)
    &&& h.merkle_root@ == hash_of_text(row.hashMerkleRoot@)
    &&& Some(h.time as int) == parse_u32_radix16(row.nTime@)
    &&& Some(h.bits as int) == parse_u32_radix16(row.nBits@)
    &&& Some(h.nonce as int) == parse_u32_radix16(row.nNonce@)
    &&& c.transactions.len() == 0
    &&& c.parents.len() == 0
    &&& c.parent_bead_timestamps.len() == 0
    &&& c.payout_address == row.payout_address@
    &&& c.start_timestamp as i64 == row.start_timestamp
    &&& c.comm_pub_key == spec_public_key_of_text(row.comm_pub_key@)
    &&& Some(c.min_target as int) == parse_u32_radix16(row.min_target@)
    &&& Some(c.weak_target as int) == parse_u32_radix16(row.weak_target@)
    &&& c.miner_ip == row.miner_ip@
    &&& Some(u.extra_nonce as int) == parse_i32_radix16(row.extra_nonce@)
    &&& u.broadcast_timestamp as i64 == row.broadcast_timestamp
    &&& u.signature == spec_signature_of_text(row.signature@)
}

fn attribute_error(error: String, attribute: &str) -> (res: DBErrors)
    ensures
        res == (DBErrors::TupleAtrributeParsingError { error, attribute: res->attribute })
            && res->attribute@ == attribute@,
{
    DBErrors::TupleAtrributeParsingError { error, attribute: String::from_str(attribute) }
}

/// Decodes a `bead` row into its id and bead. Decoding stops at the first
/// column, in reading order, that does not parse, and names it in the error.
pub fn parse_bead_row(row: &BeadTuple) -> (res: Result<(i64, Bead), DBErrors>)
    requires
        row_is_readable(*row),
    ensures
        match res {
            Ok((id, bead)) => {
                &&& first_invalid_attribute(*row) is None
                &&& row.id == Some(id)
                &&& bead_of_row(bead@, *row)
            },
            Err(DBErrors::TupleAtrributeParsingError { attribute, .. }) => first_invalid_attribute(
                *row,
            ) == Some(attribute@),
            Err(_) => false,
        },
{
    let version = match i32_from_hex_text(row.nVersion.as_str()) {
        Ok(v) => v,
        Err(e) => return Err(attribute_error(e, "nVersion")),
    };
    let prev = match block_hash_from_text(row.hashPrevBlock.as_str()) {
        Ok(v) => v,
        Err(e) => return Err(attribute_error(e, "hashPrevBlock")),
    };
    let merkle = match merkle_node_from_text(row.hashMerkleRoot.as_str()) {
        Ok(v) => v,
        Err(e) => return Err(attribute_error(e, "hashMerkleRoot")),
    };
    let time = match u32_from_hex_text(row.nTime.as_str()) {
        Ok(v) => v,
        Err(e) => return Err(attribute_error(e, "nTime")),
    };
    let bits = match compact_target_from_unprefixed_hex(row.nBits.as_str()) {
        Ok(v) => v,
        Err(e) => return Err(attribute_error(e, "nBits")),
    };
    let nonce = match u32_from_hex_text(row.nNonce.as_str()) {
        Ok(v) => v,
        Err(e) => return Err(attribute_error(e, "nNonce")),
    };
    let comm_pub_key = match public_key_from_text(row.comm_pub_key.as_str()) {
        Ok(v) => v,
        Err(e) => return Err(attribute_error(e, "comm_pub_key")),
    };
    let min_target = match compact_target_from_unprefixed_hex(row.min_target.as_str()) {
        Ok(v) => v,
        Err(e) => return Err(attribute_error(e, "min_target")),
    };
    let weak_target = match compact_target_from_unprefixed_hex(row.weak_target.as_str()) {
        Ok(v) => v,
        Err(e) => return Err(attribute_error(e, "weak_target")),
    };
    let extra_nonce = match i32_from_hex_text(row.extra_nonce.as_str()) {
        Ok(v) => v,
        Err(e) => return Err(attribute_error(e, "extra_nonce")),
    };
    let start_timestamp = match block_time_from_u32(row.start_timestamp as u32) {
        Ok(v) => v,
        Err(e) => return Err(attribute_error(e, "startTimestamp")),
    };
    let miner_ip = row.miner_ip.clone();
    let payout_address = row.payout_address.clone();
    let signature = match signature_from_text(row.signature.as_str()) {
        Ok(v) => v,
        Err(e) => return Err(attribute_error(e, "signature")),
    };
    let broadcast_timestamp = match block_time_from_u32(row.broadcast_timestamp as u32) {
        Ok(v) => v,
        Err(e) => return Err(attribute_error(e, "broadcastTimestamp")),
    };
    let id = match row.id {
        Some(id) => id,
        None => {
            assert(false);
            0
        },
    };
    let bead = Bead {
        block_header: BlockHeader {
            version,
            prev_blockhash: prev,
            merkle_root: merkle,
            time,
            bits,
            nonce,
        },
        committed_metadata: CommittedMetadata {
            transactions: Vec::new(),
            parents: Vec::new(),
            parent_bead_timestamps: Vec::new(),
            payout_address,
            start_timestamp,
            comm_pub_key,
            min_target,
            weak_target,
            miner_ip,
        },
        uncommitted_metadata: UnCommittedMetadata {
            extra_nonce,
            broadcast_timestamp,
            signature,
        },
    };
    Ok((id, bead))
}


/// The eight-digit text of a 32-bit word's big-endian bytes reads back as
/// that word; read as an `i32` it gives the value back exactly when it is
/// non-negative.
pub proof fn lemma_word_text(x: u32)
    ensures
        parse_u32_radix16(hex_of_bytes(be_bytes_u32(x))) == Some(x as int),
        (x as i32) >= 0 ==> parse_i32_radix16(hex_of_bytes(be_bytes_u32(x))) == Some((x as i32) as int),
        (x as i32) < 0 ==> parse_i32_radix16(hex_of_bytes(be_bytes_u32(x))) is None,
{
    let b = be_bytes_u32(x);
    let s = hex_of_bytes(b);
    lemma_be_bytes_u32(x);
    lemma_hex_of_bytes(b);
    assert(s.len() == 8);
    assert(s[0] != '+' && s[0] != '-');
    assert(hex_digits_value(s) == x);
    assert((x as i32) >= 0 ==> (x as i32) as int == x as int) by (bit_vector);
    assert((x as i32) < 0 ==> x >= 0x8000_0000) by (bit_vector);
}

/// A compact target's hexadecimal numeral is accepted back as that target.
pub proof fn lemma_compact_text(x: u32)
    ensures
        is_compact_text(lower_hex_numeral(x as nat)),
        parse_u32_radix16(lower_hex_numeral(x as nat)) == Some(x as int),
{
    lemma_lower_hex_numeral(x as nat);
}

/// The display text of a 32-byte hash is hash text spelling that hash.
pub proof fn lemma_hash_text(h: Seq<u8>)
    requires
        h.len() == 32,
    ensures
        is_hash_text(hash_text(h)),
        hash_of_text(hash_text(h)) == h,
{
    lemma_hex_of_bytes(h.reverse());
    assert(h.reverse().reverse() =~= h);
}

/// The extra-nonce placeholder reads back as 0.
pub proof fn lemma_placeholder_reads_as_zero()
    ensures
        parse_i32_radix16(extra_nonce_placeholder()) == Some(0int),
{
    let s = extra_nonce_placeholder();
    reveal_strlit("0000000000000000");
    assert(s.len() == 16);
    assert(all_hex_digits(s)) by {
        assert forall|i: int| 0 <= i < s.len() implies #[trigger] is_hex_digit(s[i]) by {
            assert(s[i] == '0');
        }
    }
    reveal_with_fuel(hex_digits_value, 17);
    assert(s.drop_last().drop_last().drop_last().drop_last().drop_last().drop_last().drop_last()
        .drop_last().drop_last().drop_last().drop_last().drop_last().drop_last().drop_last().drop_last()
        .drop_last().len() == 0);
    assert(hex_digits_value(s) == 0);
}

/// The header and target columns of the row written for a bead with a
/// non-negative version parse back to the bead's values.
proof fn lemma_written_columns_parse(bead: BeadView, bead_id: usize, row: BeadTuple)
    requires
        row_of_bead(row, bead, bead_id),
        bead.block_header.version >= 0,
    ensures
        parse_i32_radix16(row.nVersion@) == Some(bead.block_header.version as int),
        is_hash_text(row.hashPrevBlock@),
        hash_of_text(row.hashPrevBlock@) == bead.block_header.prev_blockhash@,
        is_hash_text(row.hashMerkleRoot@),
        hash_of_text(row.hashMerkleRoot@) == bead.block_header.merkle_root@,
        parse_u32_radix16(row.nTime@) == Some(bead.block_header.time as int),
        is_compact_text(row.nBits@),
        parse_u32_radix16(row.nBits@) == Some(bead.block_header.bits as int),
        parse_u32_radix16(row.nNonce@) == Some(bead.block_header.nonce as int),
        is_compact_text(row.min_target@),
        parse_u32_radix16(row.min_target@) == Some(bead.committed_metadata.min_target as int),
        is_compact_text(row.weak_target@),
        parse_u32_radix16(row.weak_target@) == Some(bead.committed_metadata.weak_target as int),
        parse_i32_radix16(row.extra_nonce@) == Some(0int),
{
    let h = bead.block_header;
    lemma_word_text(h.version as u32);
    let v = h.version;
    assert((v as u32) as i32 == v) by (bit_vector);
    lemma_word_text(h.time);
    lemma_word_text(h.nonce);
    lemma_compact_text(h.bits);
    lemma_compact_text(bead.committed_metadata.min_target);
    lemma_compact_text(bead.committed_metadata.weak_target);
    lemma_hash_text(h.prev_blockhash@);
    lemma_hash_text(h.merkle_root@);
    lemma_placeholder_reads_as_zero();
}

/// Decodes a `bead` row whose integer columns may not fit: `None` when a
/// timestamp lies outside the `u32` range or the id is missing (a row that
/// cannot be read), and otherwise what `parse_bead_row` gives.
pub fn read_bead_row(row: &BeadTuple) -> (res: Option<Result<(i64, Bead), DBErrors>>)
    ensures
        res is None <==> !(0 <= row.start_timestamp <= u32::MAX && 0 <= row.broadcast_timestamp
            <= u32::MAX && row.id is Some),
        res matches Some(r) ==> match r {
            Ok((id, bead)) => {
                &&& first_invalid_attribute(*row) is None
                &&& row.id == Some(id)
                &&& bead_of_row(bead@, *row)
            },
            Err(DBErrors::TupleAtrributeParsingError { attribute, .. }) => first_invalid_attribute(
                *row,
            ) == Some(attribute@),
            Err(_) => false,
        },
{
    if 0 <= row.start_timestamp && row.start_timestamp <= 0xffff_ffff && 0 <= row.broadcast_timestamp
        && row.broadcast_timestamp <= 0xffff_ffff && row.id.is_some() {
        Some(parse_bead_row(row))
    } else {
        None
    }
}

/// Law (a written bead reads back): the row written for a bead whose version
/// is non-negative and whose timestamps are block times decodes, under the
/// written id, to a bead with the written bead's header (hence its hash), its
/// key and signature, payout and miner addresses, targets and timestamps, and
/// the extra nonce 0 that the placeholder stands for.
pub proof fn lemma_bead_row_round_trip(
    bead: BeadView,
    bead_id: usize,
    written: BeadTuple,
    decoded: BeadView,
)
    requires
        row_of_bead(written, bead, bead_id),
        bead.block_header.version >= 0,
        bead.committed_metadata.start_timestamp >= 500_000_000,
        bead.uncommitted_metadata.broadcast_timestamp >= 500_000_000,
    ensures
        row_is_readable(written),
        first_invalid_attribute(written) is None,
        written.id == Some(bead_id as i64),
        bead_of_row(decoded, written) ==> {
            &&& decoded.block_header == bead.block_header
            &&& decoded.hash() == bead.hash()
            &&& decoded.committed_metadata.comm_pub_key == bead.committed_metadata.comm_pub_key
            &&& decoded.committed_metadata.payout_address == bead.committed_metadata.payout_address
            &&& decoded.committed_metadata.miner_ip == bead.committed_metadata.miner_ip
            &&& decoded.committed_metadata.start_timestamp == bead.committed_metadata.start_timestamp
            &&& decoded.committed_metadata.min_target == bead.committed_metadata.min_target
            &&& decoded.committed_metadata.weak_target == bead.committed_metadata.weak_target
            &&& decoded.uncommitted_metadata.signature == bead.uncommitted_metadata.signature
            &&& decoded.uncommitted_metadata.broadcast_timestamp
                == bead.uncommitted_metadata.broadcast_timestamp
            &&& decoded.uncommitted_metadata.extra_nonce == 0
        },
{
    lemma_written_columns_parse(bead, bead_id, written);
    if bead_of_row(decoded, written) {
        let d = decoded.block_header;
        let h = bead.block_header;
        assert(d.prev_blockhash@ == h.prev_blockhash@);
        assert(d.merkle_root@ == h.merkle_root@);
        assert(d.prev_blockhash == h.prev_blockhash);
        assert(d.merkle_root == h.merkle_root);
    }
}

/// The statement that opens the batch and inserts the bead row, with one
/// placeholder per column.
pub open spec fn bead_insert_head() -> Seq<char> {
    "\n        BEGIN TRANSACTION;\n        INSERT INTO bead (\n            id,hash, nVersion, hashPrevBlock, hashMerkleRoot, nTime, \n            nBits, nNonce, payout_address, start_timestamp, comm_pub_key,\n            min_target, weak_target, miner_ip, extra_nonce, \n            broadcast_timestamp, signature\n        ) VALUES (?,?, ?, ?, ?, ?, ?, ?, ?, ?, ?, ?, ?, ?, ?, ?, ?);\n"@
}

/// Text that closes the `Transactions` insertion.
pub open spec fn transactions_tail() -> Seq<char> {
    ";\n                            "@
}

/// One row of the `Transactions` insertion: the id of the bead row just
/// inserted, and the transaction id as a quoted string.
pub open spec fn transaction_value(txid: Seq<char>) -> Seq<char> {
    "(last_insert_rowid(), '"@ + txid + "')"@
}

/// One row of the `Relatives` insertion: `(child, parent)`.
pub open spec fn relative_value(bead_id: nat, parent: nat) -> Seq<char> {
    "("@ + decimal_numeral(bead_id) + ", "@ + decimal_numeral(parent) + ")"@
}

/// One row of the `ParentTimestamps` insertion: `(parent, child, timestamp)`.
pub open spec fn parent_timestamp_value(parent: nat, bead_id: nat, timestamp: nat) -> Seq<char> {
    "("@ + decimal_numeral(parent) + ", "@ + decimal_numeral(bead_id) + ", "@ + decimal_numeral(
        timestamp,
    ) + ")"@
}

pub open spec fn transaction_values(txids: Seq<Seq<char>>) -> Seq<char> {
    join(txids.map_values(|t: Seq<char>| transaction_value(t)), ", "@)
}

pub open spec fn relative_values(bead_id: usize, parents: Seq<usize>) -> Seq<char> {
    join(
        parents.map_values(|p: usize| relative_value(row_id_of_index(bead_id), row_id_of_index(p))),
        ", "@,
    )
}

/// The start timestamp of the bead at `index` in the braid.
pub open spec fn start_timestamp_at(beads: Seq<Bead>, index: usize) -> nat {
    beads[index as int].committed_metadata.start_timestamp as nat
}

pub open spec fn parent_timestamp_values(bead_id: usize, parents: Seq<usize>, beads: Seq<Bead>) -> Seq<
    char,
> {
    join(
        parents.map_values(
            |p: usize|
                parent_timestamp_value(
                    row_id_of_index(p),
                    row_id_of_index(bead_id),
                    start_timestamp_at(beads, p),
                ),
        ),
        ", "@,
    )
}

/// The SQL batch that records the braid bead at index `bead_id`: the bead
/// row, then (each only when there is something to insert) its transactions,
/// its relatives and its parents' timestamps, then `COMMIT`. Parents, given as
/// braid indices, are listed in the order given; beads are named in the
/// relatives and timestamps by their row ids (`row_id_of_index`).
pub open spec fn bead_insert_sql(
    bead_id: usize,
    parents: Seq<usize>,
    beads: Seq<Bead>,
    txids: Seq<Seq<char>>,
) -> Seq<char> {
    bead_insert_head() + transactions_statement(txids) + relatives_statement(bead_id, parents)
        + parent_timestamps_statement(bead_id, parents, beads) + " COMMIT;"@
}

/// The insertion into `Transactions`, when there are transaction ids.
pub open spec fn transactions_statement(txids: Seq<Seq<char>>) -> Seq<char> {
    if txids.len() == 0 {
        Seq::empty()
    } else {
        "INSERT INTO Transactions (bead_id, txid) VALUES "@ + transaction_values(txids)
            + transactions_tail()
    }
}

/// The insertion into `Relatives`, when there are parents.
pub open spec fn relatives_statement(bead_id: usize, parents: Seq<usize>) -> Seq<char> {
    if parents.len() == 0 {
        Seq::empty()
    } else {
        "INSERT INTO Relatives (child, parent) VALUES "@ + relative_values(bead_id, parents) + ";"@
    }
}

/// The insertion into `ParentTimestamps`, when there are parents.
pub open spec fn parent_timestamps_statement(bead_id: usize, parents: Seq<usize>, beads: Seq<Bead>) -> Seq<
    char,
> {
    if parents.len() == 0 {
        Seq::empty()
    } else {
        "INSERT INTO ParentTimestamps (parent, child, timestamp) VALUES "@
            + parent_timestamp_values(bead_id, parents, beads) + ";"@
    }
}

/// Law (what the batch says): the batch that records the braid bead at index
/// `bead_id` opens a transaction and inserts the bead row with seventeen
/// bound columns; then, for each transaction, a `Transactions` row pairing the
/// new row's id with the transaction's displayed id; for each parent `p`, a
/// `Relatives` row `(bead_id + 1, p + 1)` and a `ParentTimestamps` row
/// `(p + 1, bead_id + 1, start timestamp of the braid bead at p)`; then
/// commits. Each insertion is left out when it has no row.
pub proof fn lemma_insert_batch_text(
    bead_id: usize,
    parents: Seq<usize>,
    beads: Seq<Bead>,
    transactions: Seq<bitcoin::Transaction>,
)
    ensures
        bead_insert_sql(bead_id, parents, beads, txid_texts(transactions)) ==
            "\n        BEGIN TRANSACTION;\n        INSERT INTO bead (\n            id,hash, nVersion, hashPrevBlock, hashMerkleRoot, nTime, \n            nBits, nNonce, payout_address, start_timestamp, comm_pub_key,\n            min_target, weak_target, miner_ip, extra_nonce, \n            broadcast_timestamp, signature\n        ) VALUES (?,?, ?, ?, ?, ?, ?, ?, ?, ?, ?, ?, ?, ?, ?, ?, ?);\n"@
            + (if transactions.len() == 0 {
                Seq::<char>::empty()
            } else {
                "INSERT INTO Transactions (bead_id, txid) VALUES "@ + join(
                    transactions.map_values(
                        |tx: bitcoin::Transaction|
                            "(last_insert_rowid(), '"@ + hash_text(spec_txid(tx)) + "')"@,
                    ),
                    ", "@,
                ) + ";\n                            "@
            }) + (if parents.len() == 0 {
                Seq::<char>::empty()
            } else {
                "INSERT INTO Relatives (child, parent) VALUES "@ + join(
                    parents.map_values(
                        |p: usize|
                            "("@ + decimal_numeral(bead_id as nat + 1) + ", "@ + decimal_numeral(
                                p as nat + 1,
                            ) + ")"@,
                    ),
                    ", "@,
                ) + ";"@
            }) + (if parents.len() == 0 {
                Seq::<char>::empty()
            } else {
                "INSERT INTO ParentTimestamps (parent, child, timestamp) VALUES "@ + join(
                    parents.map_values(
                        |p: usize|
                            "("@ + decimal_numeral(p as nat + 1) + ", "@ + decimal_numeral(
                                bead_id as nat + 1,
                            ) + ", "@ + decimal_numeral(
                                beads[p as int].committed_metadata.start_timestamp as nat,
                            ) + ")"@,
                    ),
                    ", "@,
                ) + ";"@
            }) + " COMMIT;"@,
{
    let txids = txid_texts(transactions);
    assert(txids.map_values(|t: Seq<char>| transaction_value(t)) =~= transactions.map_values(
        |tx: bitcoin::Transaction| "(last_insert_rowid(), '"@ + hash_text(spec_txid(tx)) + "')"@,
    ));
    assert(parents.map_values(
        |p: usize| relative_value(row_id_of_index(bead_id), row_id_of_index(p)),
    ) =~= parents.map_values(
        |p: usize|
            "("@ + decimal_numeral(bead_id as nat + 1) + ", "@ + decimal_numeral(p as nat + 1) + ")"@,
    ));
    assert(parents.map_values(
        |p: usize|
            parent_timestamp_value(
                row_id_of_index(p),
                row_id_of_index(bead_id),
                start_timestamp_at(beads, p),
            ),
    ) =~= parents.map_values(
        |p: usize|
            "("@ + decimal_numeral(p as nat + 1) + ", "@ + decimal_numeral(bead_id as nat + 1) + ", "@
                + decimal_numeral(beads[p as int].committed_metadata.start_timestamp as nat) + ")"@,
    ));
}

/// A decimal numeral is made of decimal digits only.
pub proof fn lemma_decimal_numeral_digits(x: nat)
    ensures
        forall|i: int|
            0 <= i < decimal_numeral(x).len() ==> '0' <= #[trigger] decimal_numeral(x)[i] <= '9',
    decreases x,
{
    if x >= 10 {
        lemma_decimal_numeral_digits(x / 10);
        let p = decimal_numeral(x / 10);
        assert forall|i: int| 0 <= i < decimal_numeral(x).len() implies '0' <= #[trigger] decimal_numeral(
            x,
        )[i] <= '9' by {
            if i < p.len() {
                assert(decimal_numeral(x)[i] == p[i]);
            }
        }
    }
}

/// Law (the batch inserts into four tables and splices in only numbers and
/// transaction ids): the batch is the bead row's insertion, whose seventeen
/// columns are all bound parameters, followed by insertions into
/// `Transactions`, `Relatives` and `ParentTimestamps` (each present only when
/// it has rows) and `COMMIT`. Of the braid's beads it reads only the parents'
/// start timestamps; every transaction id it splices in is hexadecimal text.
/// The other values it splices in are decimal numerals
/// (`lemma_decimal_numeral_digits`).
pub proof fn lemma_insert_batch_shape(
    bead_id: usize,
    parents: Seq<usize>,
    beads: Seq<Bead>,
    other_beads: Seq<Bead>,
    transactions: Seq<bitcoin::Transaction>,
)
    requires
        forall|i: int|
            0 <= i < parents.len() ==> start_timestamp_at(beads, #[trigger] parents[i])
                == start_timestamp_at(other_beads, parents[i]),
    ensures
        bead_insert_sql(bead_id, parents, beads, txid_texts(transactions)) == bead_insert_head()
            + transactions_statement(txid_texts(transactions)) + relatives_statement(bead_id, parents)
            + parent_timestamps_statement(bead_id, parents, beads) + " COMMIT;"@,
        transactions_statement(txid_texts(transactions)).len() == 0 || transactions_statement(
            txid_texts(transactions),
        ).take(48) == "INSERT INTO Transactions (bead_id, txid) VALUES "@,
        relatives_statement(bead_id, parents).len() == 0 || relatives_statement(bead_id, parents).take(
            45,
        ) == "INSERT INTO Relatives (child, parent) VALUES "@,
        parent_timestamps_statement(bead_id, parents, beads).len() == 0
            || parent_timestamps_statement(bead_id, parents, beads).take(63)
            == "INSERT INTO ParentTimestamps (parent, child, timestamp) VALUES "@,
        bead_insert_sql(bead_id, parents, beads, txid_texts(transactions)) == bead_insert_sql(
            bead_id,
            parents,
            other_beads,
            txid_texts(transactions),
        ),
        forall|i: int|
            0 <= i < transactions.len() ==> all_hex_digits(#[trigger] txid_texts(transactions)[i]),
{
    reveal_strlit("INSERT INTO Transactions (bead_id, txid) VALUES ");
    reveal_strlit("INSERT INTO Relatives (child, parent) VALUES ");
    reveal_strlit("INSERT INTO ParentTimestamps (parent, child, timestamp) VALUES ");
    let ts1 = parents.map_values(
        |p: usize|
            parent_timestamp_value(row_id_of_index(p), row_id_of_index(bead_id), start_timestamp_at(beads, p)),
    );
    let ts2 = parents.map_values(
        |p: usize|
            parent_timestamp_value(
                row_id_of_index(p),
                row_id_of_index(bead_id),
                start_timestamp_at(other_beads, p),
            ),
    );
    assert(ts1 =~= ts2);
    assert forall|i: int| 0 <= i < transactions.len() implies all_hex_digits(
        #[trigger] txid_texts(transactions)[i],
    ) by {
        lemma_hex_of_bytes(spec_txid(transactions[i]).reverse());
    }
}

proof fn lemma_join_step(items: Seq<Seq<char>>, sep: Seq<char>, i: int)
    requires
        0 <= i < items.len(),
    ensures
        join(items.take(i + 1), sep) == if i == 0 {
            items[0]
        } else {
            join(items.take(i), sep) + sep + items[i]
        },
{
    assert(items.take(i + 1).drop_last() =~= items.take(i));
    if i == 0 {
        assert(items.take(1) =~= seq![items[0]]);
    }
}

/// The display text of each transaction's id, in order.
pub open spec fn txid_texts(transactions: Seq<bitcoin::Transaction>) -> Seq<Seq<char>> {
    transactions.map_values(|tx: bitcoin::Transaction| hash_text(spec_txid(tx)))
}

/// The transaction ids of a bead's transactions, in their display form.
pub fn transaction_ids(bead: &Bead) -> (res: Vec<String>)
    ensures
        res@.map_values(|t: String| t@) == txid_texts(bead.committed_metadata.transactions@),
{
    let txs = &bead.committed_metadata.transactions;
    let mut res: Vec<String> = Vec::new();
    let mut i: usize = 0;
    while i < txs.len()
        invariant
            txs@ == bead.committed_metadata.transactions@,
            i <= txs.len(),
            res.len() == i,
            forall|j: int| 0 <= j < i ==> #[trigger] res@[j]@ == hash_text(spec_txid(txs@[j])),
        decreases txs.len() - i,
    {
        let txid = transaction_txid(&txs[i]);
        let text = txid_to_text(&txid);
        res.push(text);
        i = i + 1;
    }
    assert(res@.map_values(|t: String| t@) =~= txid_texts(txs@));
    res
}

/// The rows of the `Transactions` insertion, separated by commas.
fn transaction_values_text(txids: &Vec<String>) -> (res: String)
    ensures
        res@ == transaction_values(txids@.map_values(|t: String| t@)),
{
    let ghost items = txids@.map_values(|t: String| t@).map_values(
        |t: Seq<char>| transaction_value(t),
    );
    let mut values = String::new();
    for i in 0..txids.len()
        invariant
            items.len() == txids.len(),
            forall|j: int| 0 <= j < txids.len() ==> #[trigger] items[j] == transaction_value(txids@[j]@),
            values@ == join(items.take(i as int), ", "@),
    {
        proof {
            lemma_join_step(items, ", "@, i as int);
        }
        if i > 0 {
            values.append(", ");
        }
        values.append("(last_insert_rowid(), '");
        values.append(txids[i].as_str());
        values.append("')");
    }
    assert(items.take(txids.len() as int) =~= items);
    values
}

/// The rows of the `Relatives` insertion, separated by commas.
fn relative_values_text(bead_id: usize, parents: &Vec<usize>) -> (res: String)
    requires
        bead_id < usize::MAX,
        forall|i: int| 0 <= i < parents.len() ==> #[trigger] parents@[i] < usize::MAX,
    ensures
        res@ == relative_values(bead_id, parents@),
{
    let bead_text = u64_to_decimal((bead_id + 1) as u64);
    let ghost items = parents@.map_values(
        |p: usize| relative_value(row_id_of_index(bead_id), row_id_of_index(p)),
    );
    let mut values = String::new();
    for i in 0..parents.len()
        invariant
            forall|j: int| 0 <= j < parents.len() ==> #[trigger] parents@[j] < usize::MAX,
            items.len() == parents.len(),
            forall|j: int|
                0 <= j < parents.len() ==> #[trigger] items[j] == relative_value(
                    row_id_of_index(bead_id),
                    row_id_of_index(parents@[j]),
                ),
            bead_text@ == decimal_numeral(row_id_of_index(bead_id)),
            values@ == join(items.take(i as int), ", "@),
    {
        proof {
            lemma_join_step(items, ", "@, i as int);
        }
        let parent_text = u64_to_decimal((parents[i] + 1) as u64);
        if i > 0 {
            values.append(", ");
        }
        values.append("(");
        values.append(bead_text.as_str());
        values.append(", ");
        values.append(parent_text.as_str());
        values.append(")");
    }
    assert(items.take(parents.len() as int) =~= items);
    values
}

/// The rows of the `ParentTimestamps` insertion, separated by commas.
fn parent_timestamp_values_text(bead_id: usize, parents: &Vec<usize>, beads: &Vec<Bead>) -> (res:
    String)
    requires
        bead_id < usize::MAX,
        forall|i: int| 0 <= i < parents.len() ==> #[trigger] parents@[i] < beads.len(),
    ensures
        res@ == parent_timestamp_values(bead_id, parents@, beads@),
{
    let bead_text = u64_to_decimal((bead_id + 1) as u64);
    let ghost items = parents@.map_values(
        |p: usize|
            parent_timestamp_value(
                row_id_of_index(p),
                row_id_of_index(bead_id),
                start_timestamp_at(beads@, p),
            ),
    );
    let mut values = String::new();
    for i in 0..parents.len()
        invariant
            forall|j: int| 0 <= j < parents.len() ==> #[trigger] parents@[j] < beads.len(),
            items.len() == parents.len(),
            forall|j: int|
                0 <= j < parents.len() ==> #[trigger] items[j] == parent_timestamp_value(
                    row_id_of_index(parents@[j]),
                    row_id_of_index(bead_id),
                    start_timestamp_at(beads@, parents@[j]),
                ),
            bead_text@ == decimal_numeral(row_id_of_index(bead_id)),
            values@ == join(items.take(i as int), ", "@),
    {
        proof {
            lemma_join_step(items, ", "@, i as int);
        }
        let parent = parents[i];
        let parent_text = u64_to_decimal((parent + 1) as u64);
        let timestamp_text = u64_to_decimal(beads[parent].committed_metadata.start_timestamp as u64);
        if i > 0 {
            values.append(", ");
        }
        values.append("(");
        values.append(parent_text.as_str());
        values.append(", ");
        values.append(bead_text.as_str());
        values.append(", ");
        values.append(timestamp_text.as_str());
        values.append(")");
    }
    assert(items.take(parents.len() as int) =~= items);
    values
}

/// The SQL batch that records bead `bead_id` with the given parents (indices
/// into `beads`, the braid's beads) and transaction ids.
pub fn bead_insert_query(
    bead_id: usize,
    parents: &Vec<usize>,
    beads: &Vec<Bead>,
    txids: &Vec<String>,
) -> (res: String)
    requires
        bead_id < usize::MAX,
        forall|i: int| 0 <= i < parents.len() ==> #[trigger] parents@[i] < beads.len(),
    ensures
        res@ == bead_insert_sql(bead_id, parents@, beads@, txids@.map_values(|t: String| t@)),
{
    let tx_values = transaction_values_text(txids);
    assert forall|i: int| 0 <= i < parents.len() implies #[trigger] parents@[i] < usize::MAX by {
        assert(parents@[i] < beads.len());
    }
    let rel_values = relative_values_text(bead_id, parents);
    let ts_values = parent_timestamp_values_text(bead_id, parents, beads);
    let mut query = String::from_str("\n        BEGIN TRANSACTION;\n        INSERT INTO bead (\n            id,hash, nVersion, hashPrevBlock, hashMerkleRoot, nTime, \n            nBits, nNonce, payout_address, start_timestamp, comm_pub_key,\n            min_target, weak_target, miner_ip, extra_nonce, \n            broadcast_timestamp, signature\n        ) VALUES (?,?, ?, ?, ?, ?, ?, ?, ?, ?, ?, ?, ?, ?, ?, ?, ?);\n");
    if txids.len() > 0 {
        query.append("INSERT INTO Transactions (bead_id, txid) VALUES ");
        query.append(tx_values.as_str());
        query.append(";\n                            ");
    }
    if parents.len() > 0 {
        query.append("INSERT INTO Relatives (child, parent) VALUES ");
        query.append(rel_values.as_str());
        query.append(";");
        query.append("INSERT INTO ParentTimestamps (parent, child, timestamp) VALUES ");
        query.append(ts_values.as_str());
        query.append(";");
    }
    query.append(" COMMIT;");
    query
}

/// The members of a set, each once, in the order the set is walked; that
/// order is not fixed.
pub fn set_members(set: &HashSet<usize>) -> (res: Vec<usize>)
    ensures
        res@.to_set() == set@,
        res@.no_duplicates(),
{
    broadcast use vstd::std_specs::hash::group_hash_axioms;

    let ghost keys = vstd::std_specs::iter::IteratorSpec::remaining(
        &vstd::std_specs::hash::spec_hash_keys_iter(set),
    ).unref();
    let mut res: Vec<usize> = Vec::new();
    for p in it: set.iter()
        invariant
            it.seq().unref() == keys,
            keys.to_set() == set@,
            keys.no_duplicates(),
            res@ == keys.take(it.index()),
    {
        res.push(*p);
        assert(keys.take(it.index() + 1) =~= keys.take(it.index()).push(*p));
    }
    assert(res@ =~= keys);
    res
}


/// `query` is the batch that records bead `bead_id` with the parent indices
/// of `parent_set`, listed in some order, and the ids of `transactions`.
pub open spec fn is_insert_batch(
    query: Seq<char>,
    bead_id: usize,
    parent_set: Set<usize>,
    beads: Seq<Bead>,
    transactions: Seq<bitcoin::Transaction>,
) -> bool {
    exists|parents: Seq<usize>|
        {
            &&& parents.to_set() == parent_set
            &&& parents.no_duplicates()
            &&& query == bead_insert_sql(bead_id, parents, beads, txid_texts(transactions))
        }
}

/// What recording the braid bead at index `bead_id` sends to the database:
/// the SQL batch and the bead row, under the row id `bead_id + 1`, bound to
/// its placeholders. The parents are those recorded for
/// `bead_id` in the braid's parent sets, listed in the unfixed order in which
/// the set is walked; each parent indexes `beads`, the braid's beads.
pub fn bead_insert_batch(
    bead: &Bead,
    bead_id: usize,
    braid_parent_set: &HashMap<usize, HashSet<usize>>,
    beads: &Vec<Bead>,
) -> (res: (String, BeadTuple))
    requires
        bead_id < usize::MAX,
        braid_parent_set@.contains_key(bead_id),
        forall|p: usize| #[trigger] braid_parent_set@[bead_id]@.contains(p) ==> p < beads.len(),
    ensures
        row_of_bead(res.1, bead@, (bead_id + 1) as usize),
        is_insert_batch(
            res.0@,
            bead_id,
            braid_parent_set@[bead_id]@,
            beads@,
            bead.committed_metadata.transactions@,
        ),
{
    broadcast use vstd::std_specs::hash::group_hash_axioms;

    let parent_set = match braid_parent_set.get(&bead_id) {
        Some(set) => set,
        None => {
            assert(false);
            return (String::new(), bead_tuple_for_insert(bead, bead_id + 1));
        },
    };
    let parents = set_members(parent_set);
    assert forall|i: int| 0 <= i < parents.len() implies #[trigger] parents@[i] < beads.len() by {
        assert(parents@.to_set().contains(parents@[i]));
    }
    let txids = transaction_ids(bead);
    let query = bead_insert_query(bead_id, &parents, beads, &txids);
    (query, bead_tuple_for_insert(bead, bead_id + 1))
}


/// The name under which the combined insertion of a bead is reported.
pub open spec fn combined_insert_name() -> Seq<char> {
    "Combined insert transaction"@
}

/// What follows the execution of a bead's insertion batch.
#[derive(Debug)]
pub enum InsertStep {
    /// The batch committed; the insertion is done.
    Committed,
    /// The batch failed with `error`; a `ROLLBACK` is to be run.
    RollBack { error: String },
}

/// Decides what follows the execution of the insertion batch.
pub fn after_insert_executed(result: Result<(), String>) -> (step: InsertStep)
    ensures
        match result {
            Ok(()) => step is Committed,
            Err(e) => step == (InsertStep::RollBack { error: e }),
        },
{
    match result {
        Ok(()) => InsertStep::Committed,
        Err(e) => InsertStep::RollBack { error: e },
    }
}

/// The outcome of a failed insertion, once the rollback has run: the
/// insertion's failure when the rollback succeeded, the rollback's otherwise.
pub fn after_rollback_executed(insert_error: String, rollback: Result<(), String>) -> (res: Result<
    (),
    DBErrors,
>)
    ensures
        match rollback {
            Ok(()) => res matches Err(DBErrors::InsertionTransactionNotCommitted { error, query_name })
                && error == insert_error && query_name@ == combined_insert_name(),
            Err(e) => res matches Err(DBErrors::TransactionNotRolledBack { error, query }) && error
                == e && query@ == combined_insert_name(),
        },
{
    match rollback {
        Ok(()) => Err(
            DBErrors::InsertionTransactionNotCommitted {
                error: insert_error,
                query_name: String::from_str("Combined insert transaction"),
            },
        ),
        Err(e) => Err(
            DBErrors::TransactionNotRolledBack {
                error: e,
                query: String::from_str("Combined insert transaction"),
            },
        ),
    }
}

/// What follows the query for the bead row with a given hash.
#[derive(Debug)]
pub enum FetchStep {
    /// The fetch is over, with this result.
    Done(Result<Option<Bead>, DBErrors>),
    /// The row decoded; the `Transactions` rows of `bead_id` are to be fetched.
    FetchTransactions { bead_id: i64, bead: Bead },
}

/// Decides what follows the query for a bead row. A row that does not decode,
/// like a row stored under the id -1, counts as no row.
pub fn after_bead_row_fetched(result: Result<Option<BeadTuple>, String>) -> (step: FetchStep)
    requires
        result matches Ok(Some(row)) ==> row_is_readable(row),
    ensures
        match result {
            Err(e) => step matches FetchStep::Done(Err(DBErrors::TupleNotFetched { error })) && error
                == e,
            Ok(None) => step matches FetchStep::Done(Ok(None)),
            Ok(Some(row)) => if first_invalid_attribute(row) is Some || row.id == Some(-1i64) {
                step matches FetchStep::Done(Ok(None))
            } else {
                step matches FetchStep::FetchTransactions { bead_id, bead } && row.id == Some(bead_id)
                    && bead_of_row(bead@, row)
            },
        },
{
    match result {
        Err(e) => FetchStep::Done(Err(DBErrors::TupleNotFetched { error: e })),
        Ok(None) => FetchStep::Done(Ok(None)),
        Ok(Some(row)) => match parse_bead_row(&row) {
            Ok((bead_id, bead)) => {
                if bead_id == -1 {
                    FetchStep::Done(Ok(None))
                } else {
                    FetchStep::FetchTransactions { bead_id, bead }
                }
            },
            Err(_) => FetchStep::Done(Ok(None)),
        },
    }
}

/// `fetched` is `bead` with the parents and parent timestamps of `source`
/// added to its own: the parents as a set, with no duplicate added, and the
/// timestamps appended in order; every other field is that of `bead`.
pub open spec fn takes_relatives_from(
    fetched: BeadView,
    bead: BeadView,
    source: CommittedMetadataView,
) -> bool {
    let c = fetched.committed_metadata;
    let b = bead.committed_metadata;
    &&& fetched.block_header == bead.block_header
    &&& fetched.uncommitted_metadata == bead.uncommitted_metadata
    &&& c.parents.to_set() == b.parents.to_set() + source.parents.to_set()
    &&& (b.parents.no_duplicates() ==> c.parents.no_duplicates())
    &&& c.parent_bead_timestamps == b.parent_bead_timestamps + source.parent_bead_timestamps
    &&& c.transactions == b.transactions
    &&& c.payout_address == b.payout_address
    &&& c.start_timestamp == b.start_timestamp
    &&& c.comm_pub_key == b.comm_pub_key
    &&& c.min_target == b.min_target
    &&& c.weak_target == b.weak_target
    &&& c.miner_ip == b.miner_ip
}

/// `fetched` is the decoded `bead` once its `Transactions` rows are read:
/// unchanged when there is none, and otherwise given the relatives of the
/// braid bead at index `bead_id - 1`, `bead_id` being that of the first row.
pub open spec fn attaches_relatives(
    fetched: BeadView,
    bead: BeadView,
    rows: Seq<TransactionTuple>,
    beads: Seq<Bead>,
) -> bool {
    if rows.len() == 0 {
        fetched == bead
    } else {
        takes_relatives_from(fetched, bead, beads[rows[0].bead_id - 1]@.committed_metadata)
    }
}

/// The outcome of the query for a fetched bead's `Transactions` rows. When
/// there is a row, the braid bead its `bead_id` points at (row ids count
/// from 1, so that is the bead at index `bead_id - 1`) lends the fetched bead
/// its parents and parent timestamps.
pub fn after_transaction_rows_fetched(
    bead: Bead,
    result: Result<Vec<TransactionTuple>, String>,
    beads: &Vec<Bead>,
) -> (res: Result<Option<Bead>, DBErrors>)
    requires
        result matches Ok(rows) ==> (rows.len() > 0 ==> 1 <= rows[0].bead_id <= beads.len()),
    ensures
        match result {
            Err(e) => res matches Err(DBErrors::TupleNotFetched { error }) && error == e,
            Ok(rows) => res matches Ok(Some(fetched)) && attaches_relatives(
                fetched@,
                bead@,
                rows@,
                beads@,
            ),
        },
{
    match result {
        Err(e) => Err(DBErrors::TupleNotFetched { error: e }),
        Ok(rows) => {
            let mut fetched = bead;
            if rows.len() > 0 {
                let index = (rows[0].bead_id - 1) as usize;
                let source = &beads[index].committed_metadata;
                extend_parents(&mut fetched.committed_metadata.parents, &source.parents);
                let mut more = copy_timestamps(&source.parent_bead_timestamps);
                fetched.committed_metadata.parent_bead_timestamps.append(&mut more);
            }
            Ok(Some(fetched))
        },
    }
}


/// A bead written from the braid bead at `index`, under the row id
/// `index + 1`, and read back gets from the fetch the parents and parent
/// timestamps of that same braid bead: its `Transactions` rows carry the
/// written row's id, and the fetch takes the relatives of the braid bead at
/// that id less one.
pub proof fn lemma_fetched_bead_has_written_parents(
    beads: Seq<Bead>,
    index: usize,
    written: BeadTuple,
    decoded: BeadView,
    transaction_row: TransactionTuple,
    fetched: BeadView,
)
    requires
        index < beads.len(),
        index < usize::MAX,
        index < i64::MAX,
        row_of_bead(written, beads[index as int]@, (index + 1) as usize),
        bead_of_row(decoded, written),
        written.id == Some(transaction_row.bead_id),
        takes_relatives_from(
            fetched,
            decoded,
            beads[transaction_row.bead_id - 1]@.committed_metadata,
        ),
    ensures
        transaction_row.bead_id - 1 == index,
        fetched.committed_metadata.parents.to_set()
            == beads[index as int]@.committed_metadata.parents.to_set(),
        fetched.committed_metadata.parents.no_duplicates(),
        fetched.committed_metadata.parent_bead_timestamps
            == beads[index as int]@.committed_metadata.parent_bead_timestamps,
{
    let row_id: usize = (index + 1) as usize;
    assert(row_id == index + 1);
    assert(row_id as i64 == index + 1);
    let b = decoded.committed_metadata;
    assert(b.parents =~= Seq::<BeadHash>::empty());
    assert(b.parents.to_set() =~= Set::<BeadHash>::empty());
    assert(b.parent_bead_timestamps =~= Seq::<u32>::empty());
    let source = beads[index as int]@.committed_metadata;
    assert(Set::<BeadHash>::empty() + source.parents.to_set() =~= source.parents.to_set());
    assert(Seq::<u32>::empty() + source.parent_bead_timestamps =~= source.parent_bead_timestamps);
}

/// Law (a written bead is fetched back whole): the braid bead at `index`,
/// written under the row id `index + 1`, decoded from that row and completed
/// with its `Transactions` rows (which carry the written id) is fetched with
/// that braid bead's header and hash, key and signature, payout and miner
/// addresses, minimum and weak targets, start and broadcast timestamps,
/// parents (each once) and parent timestamps; it carries no transactions, and
/// the extra nonce 0 that the written placeholder stands for.
pub proof fn lemma_fetch_round_trip(
    beads: Seq<Bead>,
    index: usize,
    written: BeadTuple,
    decoded: BeadView,
    rows: Seq<TransactionTuple>,
    fetched: BeadView,
)
    requires
        index < beads.len(),
        index < usize::MAX,
        index < i64::MAX,
        row_of_bead(written, beads[index as int]@, (index + 1) as usize),
        bead_of_row(decoded, written),
        rows.len() > 0,
        written.id == Some(rows[0].bead_id),
        attaches_relatives(fetched, decoded, rows, beads),
    ensures
        fetched.block_header == beads[index as int]@.block_header,
        fetched.hash() == beads[index as int]@.hash(),
        fetched.committed_metadata.comm_pub_key == beads[index as int]@.committed_metadata.comm_pub_key,
        fetched.uncommitted_metadata.signature == beads[index as int]@.uncommitted_metadata.signature,
        fetched.committed_metadata.payout_address
            == beads[index as int]@.committed_metadata.payout_address,
        fetched.committed_metadata.miner_ip == beads[index as int]@.committed_metadata.miner_ip,
        fetched.committed_metadata.min_target == beads[index as int]@.committed_metadata.min_target,
        fetched.committed_metadata.weak_target == beads[index as int]@.committed_metadata.weak_target,
        fetched.committed_metadata.start_timestamp
            == beads[index as int]@.committed_metadata.start_timestamp,
        fetched.uncommitted_metadata.broadcast_timestamp
            == beads[index as int]@.uncommitted_metadata.broadcast_timestamp,
        fetched.committed_metadata.parents.to_set()
            == beads[index as int]@.committed_metadata.parents.to_set(),
        fetched.committed_metadata.parents.no_duplicates(),
        fetched.committed_metadata.parent_bead_timestamps
            == beads[index as int]@.committed_metadata.parent_bead_timestamps,
        fetched.committed_metadata.transactions.len() == 0,
        fetched.uncommitted_metadata.extra_nonce == 0,
{
    let bead = beads[index as int]@;
    let h = bead.block_header;
    let d = decoded.block_header;
    let row_id: usize = (index + 1) as usize;
    assert(row_id as i64 == index + 1);
    lemma_fetched_bead_has_written_parents(beads, index, written, decoded, rows[0], fetched);
    let v = h.version;
    lemma_word_text(v as u32);
    assert((v as u32) as i32 == v) by (bit_vector);
    lemma_word_text(h.time);
    lemma_word_text(h.nonce);
    lemma_compact_text(h.bits);
    lemma_compact_text(bead.committed_metadata.min_target);
    lemma_compact_text(bead.committed_metadata.weak_target);
    lemma_hash_text(h.prev_blockhash@);
    lemma_hash_text(h.merkle_root@);
    lemma_placeholder_reads_as_zero();
    assert(d.prev_blockhash@ == h.prev_blockhash@);
    assert(d.merkle_root@ == h.merkle_root@);
    assert(d.prev_blockhash == h.prev_blockhash);
    assert(d.merkle_root == h.merkle_root);
    assert(d == h);
}

/// The index that the braid's hash-to-index mapping, given as pairs, assigns
/// to `hash`: that of the first pair holding `hash`.
pub open spec fn index_of_hash(mapping: Seq<(BeadHash, usize)>, hash: Seq<u8>) -> Option<usize>
    decreases mapping.len(),
{
    if mapping.len() == 0 {
        None
    } else {
        match index_of_hash(mapping.drop_last(), hash) {
            Some(k) => Some(k),
            None => if mapping.last().0@ == hash {
                Some(mapping.last().1)
            } else {
                None
            },
        }
    }
}

/// The indices of the given parent hashes under the mapping.
pub open spec fn parent_indices(mapping: Seq<(BeadHash, usize)>, parents: Seq<BeadHash>) -> Set<usize> {
    Set::new(
        |k: usize| exists|j: int| 0 <= j < parents.len() && index_of_hash(mapping, parents[j]@) == Some(k),
    )
}

/// Looks `hash` up in the braid's hash-to-index mapping.
pub fn lookup_bead_index(mapping: &Vec<(BeadHash, usize)>, hash: &BeadHash) -> (res: Option<usize>)
    ensures
        res == index_of_hash(mapping@, hash@),
        res matches Some(k) ==> exists|i: int|
            0 <= i < mapping.len() && mapping@[i].0@ == hash@ && #[trigger] mapping@[i].1 == k,
        res is None <==> forall|i: int| 0 <= i < mapping.len() ==> #[trigger] mapping@[i].0@ != hash@,
{
    proof {
        lemma_index_of_hash_pairs(mapping@, hash@);
    }
    let mut i: usize = 0;
    while i < mapping.len()
        invariant
            i <= mapping.len(),
            index_of_hash(mapping@.take(i as int), hash@) is None,
        decreases mapping.len() - i,
    {
        assert(mapping@.take(i + 1).drop_last() =~= mapping@.take(i as int));
        if hashes_equal(&mapping[i].0, hash) {
            proof {
                lemma_index_of_hash_prefix(mapping@, hash@, i + 1);
            }
            return Some(mapping[i].1);
        }
        i = i + 1;
    }
    assert(mapping@.take(mapping.len() as int) =~= mapping@);
    None
}

/// Law (a hash is looked up by its pair): the index found for `hash` is the
/// one held by the first pair whose hash is `hash`, and none is found exactly
/// when no pair holds `hash`.
pub proof fn lemma_index_of_hash_pairs(mapping: Seq<(BeadHash, usize)>, hash: Seq<u8>)
    ensures
        index_of_hash(mapping, hash) matches Some(k) ==> exists|i: int|
            #![trigger mapping[i]]
            0 <= i < mapping.len() && mapping[i].0@ == hash && mapping[i].1 == k
                && forall|m: int| 0 <= m < i ==> #[trigger] mapping[m].0@ != hash,
        index_of_hash(mapping, hash) is None <==> forall|i: int|
            0 <= i < mapping.len() ==> #[trigger] mapping[i].0@ != hash,
    decreases mapping.len(),
{
    if mapping.len() > 0 {
        let prefix = mapping.drop_last();
        lemma_index_of_hash_pairs(prefix, hash);
        assert forall|i: int| 0 <= i < prefix.len() implies #[trigger] prefix[i] == mapping[i] by {}
        match index_of_hash(prefix, hash) {
            Some(k) => {
                let i = choose|i: int|
                    #![trigger prefix[i]]
                    0 <= i < prefix.len() && prefix[i].0@ == hash && prefix[i].1 == k
                        && forall|m: int| 0 <= m < i ==> #[trigger] prefix[m].0@ != hash;
                assert(mapping[i] == prefix[i]);
                assert forall|m: int| 0 <= m < i implies #[trigger] mapping[m].0@ != hash by {
                    assert(prefix[m] == mapping[m]);
                }
            },
            None => {
                let last = mapping.len() - 1;
                assert(mapping[last] == mapping.last());
                if mapping.last().0@ == hash {
                    assert forall|m: int| 0 <= m < last implies #[trigger] mapping[m].0@ != hash by {
                        assert(prefix[m] == mapping[m]);
                    }
                } else {
                    assert forall|i: int| 0 <= i < mapping.len() implies #[trigger] mapping[i].0@ != hash by {
                        if i < last {
                            assert(prefix[i] == mapping[i]);
                        }
                    }
                }
            },
        }
    }
}

proof fn lemma_index_of_hash_prefix(mapping: Seq<(BeadHash, usize)>, hash: Seq<u8>, n: int)
    requires
        0 <= n <= mapping.len(),
        index_of_hash(mapping.take(n), hash) is Some,
    ensures
        index_of_hash(mapping, hash) == index_of_hash(mapping.take(n), hash),
    decreases mapping.len() - n,
{
    if n < mapping.len() {
        assert(mapping.take(n + 1).drop_last() =~= mapping.take(n));
        lemma_index_of_hash_prefix(mapping, hash, n + 1);
    } else {
        assert(mapping.take(n) =~= mapping);
    }
}

/// Law (a parent set holds every parent): the parent indices of a bead hold
/// the index found for each of its parents, and nothing else: every member
/// is the index of one of its parents.
pub proof fn lemma_parent_indices_members(mapping: Seq<(BeadHash, usize)>, parents: Seq<BeadHash>)
    ensures
        forall|j: int|
            0 <= j < parents.len() && index_of_hash(mapping, parents[j]@) is Some ==> parent_indices(
                mapping,
                parents,
            ).contains(#[trigger] index_of_hash(mapping, parents[j]@)->0),
        forall|k: usize|
            #[trigger] parent_indices(mapping, parents).contains(k) ==> exists|j: int|
                0 <= j < parents.len() && index_of_hash(mapping, #[trigger] parents[j]@) == Some(k),
{
    assert forall|j: int|
        0 <= j < parents.len() && index_of_hash(mapping, parents[j]@) is Some implies parent_indices(
        mapping,
        parents,
    ).contains(#[trigger] index_of_hash(mapping, parents[j]@)->0) by {
        let k = index_of_hash(mapping, parents[j]@)->0;
        assert(index_of_hash(mapping, parents[j]@) == Some(k));
    }
}

/// Every parent of every bead of the braid is known to the mapping.
pub open spec fn parents_are_indexed(beads: Seq<Bead>, mapping: Seq<(BeadHash, usize)>) -> bool {
    forall|i: int, j: int|
        0 <= i < beads.len() && 0 <= j < beads[i].committed_metadata.parents@.len()
            ==> #[trigger] index_of_hash(mapping, beads[i].committed_metadata.parents@[j]@) is Some
}

/// The set of parent indices of one bead.
fn parent_index_set(parents: &Vec<BeadHash>, mapping: &Vec<(BeadHash, usize)>) -> (res: HashSet<usize>)
    requires
        forall|j: int| 0 <= j < parents.len() ==> #[trigger] index_of_hash(mapping@, parents@[j]@) is Some,
    ensures
        res@ == parent_indices(mapping@, parents@),
{
    broadcast use vstd::std_specs::hash::group_hash_axioms;

    let mut set: HashSet<usize> = HashSet::new();
    let mut j: usize = 0;
    while j < parents.len()
        invariant
            j <= parents.len(),
            forall|k: int| 0 <= k < parents.len() ==> #[trigger] index_of_hash(mapping@, parents@[k]@) is Some,
            set@ == Set::new(
                |k: usize| exists|m: int| 0 <= m < j && index_of_hash(mapping@, parents@[m]@) == Some(k),
            ),
        decreases parents.len() - j,
    {
        let index = match lookup_bead_index(mapping, &parents[j]) {
            Some(index) => index,
            None => {
                assert(index_of_hash(mapping@, parents@[j as int]@) is Some);
                0
            },
        };
        let ghost before = set@;
        set.insert(index);
        assert(set@ =~= Set::new(
            |k: usize| exists|m: int| 0 <= m < j + 1 && index_of_hash(mapping@, parents@[m]@) == Some(k),
        )) by {
            assert forall|k: usize| #[trigger] set@.contains(k) implies exists|m: int|
                0 <= m < j + 1 && index_of_hash(mapping@, parents@[m]@) == Some(k) by {
                if k != index {
                    assert(before.contains(k));
                }
            }
        }
        j = j + 1;
    }
    assert(set@ =~= parent_indices(mapping@, parents@));
    set
}

/// The braid's parent sets: for each bead index, the indices of its parents.
pub fn braid_parent_sets(beads: &Vec<Bead>, mapping: &Vec<(BeadHash, usize)>) -> (res: HashMap<
    usize,
    HashSet<usize>,
>)
    requires
        parents_are_indexed(beads@, mapping@),
    ensures
        forall|i: usize| #[trigger] res@.contains_key(i) <==> i < beads.len(),
        forall|i: usize|
            i < beads.len() ==> #[trigger] res@[i]@ == parent_indices(
                mapping@,
                beads@[i as int].committed_metadata.parents@,
            ),
        forall|i: usize, j: int|
            i < beads.len() && 0 <= j < beads@[i as int].committed_metadata.parents@.len()
                ==> #[trigger] res@[i]@.contains(
                index_of_hash(mapping@, beads@[i as int].committed_metadata.parents@[j]@)->0,
            ),
        forall|i: usize, k: usize|
            i < beads.len() && #[trigger] res@[i]@.contains(k) ==> exists|j: int|
                0 <= j < beads@[i as int].committed_metadata.parents@.len() && index_of_hash(
                    mapping@,
                    #[trigger] beads@[i as int].committed_metadata.parents@[j]@,
                ) == Some(k),
{
    broadcast use vstd::std_specs::hash::group_hash_axioms;

    let mut sets: HashMap<usize, HashSet<usize>> = HashMap::new();
    let mut i: usize = 0;
    while i < beads.len()
        invariant
            i <= beads.len(),
            parents_are_indexed(beads@, mapping@),
            forall|k: usize| #[trigger] sets@.contains_key(k) <==> k < i,
            forall|k: usize|
                k < i ==> #[trigger] sets@[k]@ == parent_indices(
                    mapping@,
                    beads@[k as int].committed_metadata.parents@,
                ),
        decreases beads.len() - i,
    {
        let parents = &beads[i].committed_metadata.parents;
        assert forall|j: int| 0 <= j < parents.len() implies #[trigger] index_of_hash(
            mapping@,
            parents@[j]@,
        ) is Some by {
            assert(index_of_hash(mapping@, beads@[i as int].committed_metadata.parents@[j]@) is Some);
        }
        let set = parent_index_set(parents, mapping);
        sets.insert(i, set);
        i = i + 1;
    }
    assert forall|i: usize, j: int|
        i < beads.len() && 0 <= j < beads@[i as int].committed_metadata.parents@.len()
            implies #[trigger] sets@[i]@.contains(
            index_of_hash(mapping@, beads@[i as int].committed_metadata.parents@[j]@)->0,
        ) by {
        lemma_parent_indices_members(mapping@, beads@[i as int].committed_metadata.parents@);
        assert(index_of_hash(mapping@, beads@[i as int].committed_metadata.parents@[j]@) is Some);
    }
    assert forall|i: usize, k: usize| i < beads.len() && #[trigger] sets@[i]@.contains(k) implies exists|
        j: int|
        0 <= j < beads@[i as int].committed_metadata.parents@.len() && index_of_hash(
            mapping@,
            #[trigger] beads@[i as int].committed_metadata.parents@[j]@,
        ) == Some(k) by {
        lemma_parent_indices_members(mapping@, beads@[i as int].committed_metadata.parents@);
    }
    sets
}

/// What the database task sends to record `bead` once the braid holds it:
/// the braid's parent sets are built from its beads and hash-to-index
/// mapping, the bead's braid index is its index under the mapping (its row
/// id is one more), and the batch is that of `bead_insert_batch`.
pub fn prepare_bead_insertion(
    bead: &Bead,
    beads: &Vec<Bead>,
    mapping: &Vec<(BeadHash, usize)>,
) -> (res: (usize, String, BeadTuple))
    requires
        parents_are_indexed(beads@, mapping@),
        index_of_hash(mapping@, bead@.hash()) matches Some(id) && id < beads.len(),
        forall|k: usize|
            #[trigger] parent_indices(
                mapping@,
                beads@[index_of_hash(mapping@, bead@.hash())->0 as int].committed_metadata.parents@,
            ).contains(k) ==> k < beads.len(),
    ensures
        Some(res.0) == index_of_hash(mapping@, bead@.hash()),
        row_of_bead(res.2, bead@, (res.0 + 1) as usize),
        is_insert_batch(
            res.1@,
            res.0,
            parent_indices(mapping@, beads@[res.0 as int].committed_metadata.parents@),
            beads@,
            bead.committed_metadata.transactions@,
        ),
{
    let sets = braid_parent_sets(beads, mapping);
    let hash = bead.block_hash();
    let bead_id = match lookup_bead_index(mapping, &hash) {
        Some(id) => id,
        None => {
            assert(false);
            0
        },
    };
    assert(sets@[bead_id]@ == parent_indices(
        mapping@,
        beads@[bead_id as int].committed_metadata.parents@,
    ));
    let (query, row) = bead_insert_batch(bead, bead_id, &sets, beads);
    (bead_id, query, row)
}

} // verus!
