//! Calls into `bitcoin`, `hex` and the standard library that the storage
//! logic relies on. Each item here states what its contract claims of the
//! called function; nothing in this file is proved.

use crate::text::{
    all_hex_digits, bytes_of_hex, decimal_numeral, hex_of_bytes, lower_hex_numeral, parse_i32_radix16,
    parse_u32_radix16,
};
use std::str::FromStr;
use vstd::prelude::*;

verus! {

#[verifier::external_type_specification]
#[verifier::external_body]
pub struct ExPublicKey(bitcoin::PublicKey);

#[verifier::external_type_specification]
#[verifier::external_body]
pub struct ExEcdsaSignature(bitcoin::ecdsa::Signature);

#[verifier::external_type_specification]
#[verifier::external_body]
pub struct ExTransaction(bitcoin::Transaction);

/// Whether `s` begins with the `0x` or `0X` prefix.
pub open spec fn has_hex_prefix(s: Seq<char>) -> bool {
    s.len() >= 2 && s[0] == '0' && (s[1] == 'x' || s[1] == 'X')
}

/// Whether `s` is the text form of a 32-byte hash: exactly 64 hexadecimal digits.
pub open spec fn is_hash_text(s: Seq<char>) -> bool {
    s.len() == 64 && all_hex_digits(s)
}

/// The 32-byte hash spelled by hash text (bytes are displayed in reverse order).
pub open spec fn hash_of_text(s: Seq<char>) -> Seq<u8> {
    bytes_of_hex(s).reverse()
}

/// The display text of a 32-byte hash: its bytes in reverse order, lower-case hexadecimal.
pub open spec fn hash_text(h: Seq<u8>) -> Seq<char> {
    hex_of_bytes(h.reverse())
}

/// The double SHA-256 of the 80-byte serialized block header with these fields.
pub uninterp spec fn spec_block_hash(
    version: i32,
    prev_blockhash: Seq<u8>,
    merkle_root: Seq<u8>,
    time: u32,
    bits: u32,
    nonce: u32,
) -> Seq<u8>;

/// Whether `bitcoin::PublicKey::from_str` accepts `s`.
pub uninterp spec fn public_key_text_parses(s: Seq<char>) -> bool;

/// Whether `bitcoin::ecdsa::Signature::from_str` accepts `s`.
pub uninterp spec fn signature_text_parses(s: Seq<char>) -> bool;

/// The `Display` text of a public key.
pub uninterp spec fn spec_public_key_text(key: bitcoin::PublicKey) -> Seq<char>;

/// The key that `bitcoin::PublicKey::from_str` reads from `s` when it accepts it.
pub uninterp spec fn spec_public_key_of_text(s: Seq<char>) -> bitcoin::PublicKey;

/// The `Display` text of an ECDSA signature with its sighash type.
pub uninterp spec fn spec_signature_text(sig: bitcoin::ecdsa::Signature) -> Seq<char>;

/// The signature that `bitcoin::ecdsa::Signature::from_str` reads from `s` when it accepts it.
pub uninterp spec fn spec_signature_of_text(s: Seq<char>) -> bitcoin::ecdsa::Signature;

/// The 32 bytes of a transaction's id (double SHA-256 of its serialization without witness).
pub uninterp spec fn spec_txid(tx: bitcoin::Transaction) -> Seq<u8>;

/// `hex::encode`: the bytes as lower-case hexadecimal, two digits per byte.
#[verifier::external_body]
pub(crate) fn hex_encode(data: &[u8]) -> (res: String)
    ensures
        res@ == hex_of_bytes(data@),
{
    hex::encode(data)
}

/// `u32::from_str_radix(s, 16)`: an optional `+` and one or more hexadecimal
/// digits whose value fits in a `u32`; anything else is an error.
#[verifier::external_body]
pub(crate) fn u32_from_hex_text(s: &str) -> (res: Result<u32, String>)
    ensures
        match res {
            Ok(v) => parse_u32_radix16(s@) == Some(v as int),
            Err(_) => parse_u32_radix16(s@) is None,
        },
{
    match u32::from_str_radix(s, 16) {
        Ok(v) => Ok(v),
        Err(e) => Err(e.to_string()),
    }
}

/// `i32::from_str_radix(s, 16)`: an optional `+` or `-` and one or more
/// hexadecimal digits whose signed value fits in an `i32`; anything else is an error.
#[verifier::external_body]
pub(crate) fn i32_from_hex_text(s: &str) -> (res: Result<i32, String>)
    ensures
        match res {
            Ok(v) => parse_i32_radix16(s@) == Some(v as int),
            Err(_) => parse_i32_radix16(s@) is None,
        },
{
    match i32::from_str_radix(s, 16) {
        Ok(v) => Ok(v),
        Err(e) => Err(e.to_string()),
    }
}

/// The `LowerHex` form of `bitcoin::CompactTarget`, which formats the inner
/// `u32`: lower-case hexadecimal without prefix or leading zeros.
#[verifier::external_body]
pub(crate) fn compact_target_to_hex(bits: u32) -> (res: String)
    ensures
        res@ == lower_hex_numeral(bits as nat),
{
    format!("{:x}", bitcoin::CompactTarget::from_consensus(bits))
}

/// `bitcoin::CompactTarget::from_unprefixed_hex`: refuses a `0x`/`0X` prefix,
/// then reads the text as `u32::from_str_radix(_, 16)` does.
#[verifier::external_body]
pub(crate) fn compact_target_from_unprefixed_hex(s: &str) -> (res: Result<u32, String>)
    ensures
        match res {
            Ok(v) => !has_hex_prefix(s@) && parse_u32_radix16(s@) == Some(v as int),
            Err(_) => has_hex_prefix(s@) || parse_u32_radix16(s@) is None,
        },
{
    match bitcoin::CompactTarget::from_unprefixed_hex(s) {
        Ok(t) => Ok(t.to_consensus()),
        Err(e) => Err(e.to_string()),
    }
}

/// `Display` of `bitcoin::BlockHash`: the bytes in reverse order, lower-case hexadecimal.
#[verifier::external_body]
pub(crate) fn block_hash_to_text(hash: &[u8; 32]) -> (res: String)
    ensures
        res@ == hash_text(hash@),
{
    <bitcoin::BlockHash as bitcoin::hashes::Hash>::from_byte_array(*hash).to_string()
}

/// `bitcoin::BlockHash::from_str`: exactly 64 hexadecimal digits of either
/// case, whose bytes are stored in reverse order of display.
#[verifier::external_body]
pub(crate) fn block_hash_from_text(s: &str) -> (res: Result<[u8; 32], String>)
    ensures
        match res {
            Ok(h) => is_hash_text(s@) && h@ == hash_of_text(s@),
            Err(_) => !is_hash_text(s@),
        },
{
    match bitcoin::BlockHash::from_str(s) {
        Ok(h) => Ok(bitcoin::hashes::Hash::to_byte_array(h)),
        Err(e) => Err(e.to_string()),
    }
}

/// `Display` of `bitcoin::TxMerkleNode`: the bytes in reverse order, lower-case hexadecimal.
#[verifier::external_body]
pub(crate) fn merkle_node_to_text(node: &[u8; 32]) -> (res: String)
    ensures
        res@ == hash_text(node@),
{
    <bitcoin::TxMerkleNode as bitcoin::hashes::Hash>::from_byte_array(*node).to_string()
}

/// `bitcoin::TxMerkleNode::from_str`: exactly 64 hexadecimal digits of either
/// case, whose bytes are stored in reverse order of display.
#[verifier::external_body]
pub(crate) fn merkle_node_from_text(s: &str) -> (res: Result<[u8; 32], String>)
    ensures
        match res {
            Ok(h) => is_hash_text(s@) && h@ == hash_of_text(s@),
            Err(_) => !is_hash_text(s@),
        },
{
    match bitcoin::TxMerkleNode::from_str(s) {
        Ok(h) => Ok(bitcoin::hashes::Hash::to_byte_array(h)),
        Err(e) => Err(e.to_string()),
    }
}

/// `bitcoin::block::Header::block_hash` of the header with these fields, as its
/// 32 bytes; the result is named by `spec_block_hash`.
#[verifier::external_body]
pub(crate) fn header_block_hash(
    version: i32,
    prev_blockhash: &[u8; 32],
    merkle_root: &[u8; 32],
    time: u32,
    bits: u32,
    nonce: u32,
) -> (res: [u8; 32])
    ensures
        res@ == spec_block_hash(version, prev_blockhash@, merkle_root@, time, bits, nonce),
{
    let header = bitcoin::block::Header {
        version: bitcoin::block::Version::from_consensus(version),
        prev_blockhash: <bitcoin::BlockHash as bitcoin::hashes::Hash>::from_byte_array(*prev_blockhash),
        merkle_root: <bitcoin::TxMerkleNode as bitcoin::hashes::Hash>::from_byte_array(*merkle_root),
        time,
        bits: bitcoin::CompactTarget::from_consensus(bits),
        nonce,
    };
    bitcoin::hashes::Hash::to_byte_array(header.block_hash())
}

/// `bitcoin::absolute::Time::from_consensus`: accepts exactly the values at or
/// above the lock-time threshold 500_000_000, and keeps the value.
#[verifier::external_body]
pub(crate) fn block_time_from_u32(n: u32) -> (res: Result<u32, String>)
    ensures
        match res {
            Ok(v) => n >= 500_000_000 && v == n,
            Err(_) => n < 500_000_000,
        },
{
    match bitcoin::absolute::Time::from_consensus(n) {
        Ok(t) => Ok(t.to_consensus_u32()),
        Err(e) => Err(e.to_string()),
    }
}

/// `Display` of `bitcoin::PublicKey`: the hexadecimal text of the serialized
/// key (33 or 65 bytes, as the key is compressed or not). `PublicKey::from_str`
/// accepts that text again and reads back the same key.
#[verifier::external_body]
pub(crate) fn public_key_to_text(key: &bitcoin::PublicKey) -> (res: String)
    ensures
        res@ == spec_public_key_text(*key),
        public_key_text_parses(res@),
        spec_public_key_of_text(res@) == *key,
        res@.len() == 66 || res@.len() == 130,
        all_hex_digits(res@),
{
    key.to_string()
}

/// `bitcoin::PublicKey::from_str`; success is named by `public_key_text_parses`
/// and the key read by `spec_public_key_of_text`.
#[verifier::external_body]
pub(crate) fn public_key_from_text(s: &str) -> (res: Result<bitcoin::PublicKey, String>)
    ensures
        res is Ok <==> public_key_text_parses(s@),
        res matches Ok(key) ==> key == spec_public_key_of_text(s@),
{
    match bitcoin::PublicKey::from_str(s) {
        Ok(k) => Ok(k),
        Err(e) => Err(e.to_string()),
    }
}

/// `Display` of `bitcoin::ecdsa::Signature`: hexadecimal text of the DER
/// signature followed by the sighash byte. `Signature::from_str` accepts that
/// text again and reads back the same signature and sighash type.
#[verifier::external_body]
pub(crate) fn signature_to_text(sig: &bitcoin::ecdsa::Signature) -> (res: String)
    ensures
        res@ == spec_signature_text(*sig),
        signature_text_parses(res@),
        spec_signature_of_text(res@) == *sig,
        all_hex_digits(res@),
{
    sig.to_string()
}

/// `bitcoin::ecdsa::Signature::from_str`; success is named by
/// `signature_text_parses` and the signature read by `spec_signature_of_text`.
#[verifier::external_body]
pub(crate) fn signature_from_text(s: &str) -> (res: Result<bitcoin::ecdsa::Signature, String>)
    ensures
        res is Ok <==> signature_text_parses(s@),
        res matches Ok(sig) ==> sig == spec_signature_of_text(s@),
{
    match bitcoin::ecdsa::Signature::from_str(s) {
        Ok(sig) => Ok(sig),
        Err(e) => Err(e.to_string()),
    }
}

/// `Transaction::compute_txid`, as its 32 bytes; the result is named by `spec_txid`.
#[verifier::external_body]
pub(crate) fn transaction_txid(tx: &bitcoin::Transaction) -> (res: [u8; 32])
    ensures
        res@ == spec_txid(*tx),
{
    bitcoin::hashes::Hash::to_byte_array(tx.compute_txid())
}

/// `Display` of `bitcoin::Txid`: the bytes in reverse order, lower-case hexadecimal.
#[verifier::external_body]
pub(crate) fn txid_to_text(txid: &[u8; 32]) -> (res: String)
    ensures
        res@ == hash_text(txid@),
{
    <bitcoin::Txid as bitcoin::hashes::Hash>::from_byte_array(*txid).to_string()
}

/// `Clone` of a vector of transactions: `Transaction`'s derived `Clone`
/// yields an equal transaction for each element.
#[verifier::external_body]
pub(crate) fn clone_transactions(txs: &Vec<bitcoin::Transaction>) -> (res: Vec<bitcoin::Transaction>)
    ensures
        res@ == txs@,
{
    txs.clone()
}

/// `u64`'s `Display`: its decimal numeral.
#[verifier::external_body]
pub(crate) fn u64_to_decimal(n: u64) -> (res: String)
    ensures
        res@ == decimal_numeral(n as nat),
{
    n.to_string()
}

} // verus!
