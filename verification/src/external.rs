//! Trusted boundary to the outside crates: `bitcoin_hashes` (SHA-256),
//! `bech32` (regrouping of bit strings) and `secp256k1` (key parsing, public
//! key recovery and ECDSA verification).  Each wrapper takes and returns
//! plain bytes; the names below stand for what the outside code computes, and the bit
//! regrouping of `bech32` is stated with `crate::bits::regroup`.

use secp256k1::ecdsa::{RecoverableSignature, RecoveryId};
use secp256k1::{Message, PublicKey};
use vstd::prelude::*;

use crate::bits::regroup;
use crate::u5::all_five_bit;

verus! {

/// SHA-256 digest of `data`, as `bitcoin_hashes::sha256::Hash::hash` computes it.
pub uninterp spec fn sha256(data: Seq<u8>) -> Seq<u8>;

/// The compressed (33 byte) serialization of the key that
/// `secp256k1::PublicKey::from_slice` parses from `data`; `None` where parsing fails.
pub uninterp spec fn parse_public_key(data: Seq<u8>) -> Option<Seq<u8>>;

/// The compressed serialization of the key that `RecoverableSignature::recover_ecdsa`
/// recovers for the 32 byte digest `msg`, from the signature that
/// `RecoverableSignature::from_compact` parses from `sig` and `recovery_id`;
/// `None` where either of the two fails.
pub uninterp spec fn ecdsa_recover(msg: Seq<u8>, sig: Seq<u8>, recovery_id: u8) -> Option<Seq<u8>>;

/// Whether `secp256k1::ecdsa::verify` accepts the standard form (`to_standard`) of the
/// recoverable signature parsed from `sig` and `recovery_id`, for the digest `msg` and the
/// compressed key `pubkey`; `false` where the signature or the key does not parse.
pub uninterp spec fn ecdsa_verify(msg: Seq<u8>, sig: Seq<u8>, recovery_id: u8, pubkey: Seq<u8>) -> bool;

/// The SHA-256 digest of `data`, computed by `bitcoin_hashes::sha256::Hash::hash`.
#[verifier::external_body]
pub(crate) fn sha256_digest(data: &[u8]) -> (res: [u8; 32])
    ensures
        res@ == sha256(data@),
{
    bitcoin_hashes::sha256::Hash::hash(data).to_byte_array()
}

/// Regroups a bit string with `bech32::convert_bits`: with `8, 5, true` bytes become 5-bit
/// values, zero padded at the end (what `ToBase32` does for byte slices); with `5, 8, false`
/// 5-bit values become bytes (what `FromBase32` does for `Vec<u8>`).  Either way the result
/// is the input's bit string cut into groups (`regroup`).  Bytes always regroup, into
/// `ceil(8n / 5)` values below 32.  Five-bit values regroup into `floor(5n / 8)` bytes; they
/// do whenever every value is below 32 and fewer than five bits are left over, all zero
/// (none are left over, or the last value is 0).
#[verifier::external_body]
pub(crate) fn convert_bits_vec(data: &[u8], from: u32, to: u32, pad: bool) -> (res: Option<Vec<u8>>)
    requires
        (from == 8 && to == 5 && pad) || (from == 5 && to == 8 && !pad),
    ensures
        from == 8 ==> res is Some && res.unwrap()@ == regroup(data@, 8, 5, (data@.len() * 8 + 4) / 5),
        from == 8 ==> res is Some && all_five_bit(res.unwrap()@),
        from == 5 ==> (all_five_bit(data@) && (data@.len() * 5) % 8 < 5 && ((data@.len() * 5) % 8
            == 0 || data@.last() == 0) ==> res is Some),
        from == 5 && res is Some ==> res.unwrap()@ == regroup(data@, 5, 8, data@.len() * 5 / 8),
{
    bech32::convert_bits(data, from, to, pad).ok()
}

/// Parses a public key with `secp256k1::PublicKey::from_slice` and serializes it compressed
/// with `PublicKey::serialize`: the result is `parse_public_key(data)`, and inputs that are
/// neither 33 nor 65 bytes long are refused.
#[verifier::external_body]
pub(crate) fn parse_public_key_bytes(data: &[u8]) -> (res: Option<[u8; 33]>)
    ensures
        match res {
            Some(k) => parse_public_key(data@) == Some(k@),
            None => parse_public_key(data@) is None,
        },
        data@.len() != 33 && data@.len() != 65 ==> res is None,
{
    match PublicKey::from_slice(data) {
        Ok(pk) => Some(pk.serialize()),
        Err(_) => None,
    }
}

/// Recovers the signer's key, compressed, with `RecoverableSignature::from_compact` (the
/// recovery id made by `RecoveryId::from_u8_masked`, the identity below 4),
/// `RecoverableSignature::recover_ecdsa` on `Message::from_digest(msg)` and
/// `PublicKey::serialize`: the result is `ecdsa_recover(msg, sig, recovery_id)`.
#[verifier::external_body]
pub(crate) fn ecdsa_recover_compact(msg: &[u8; 32], sig: &[u8; 64], recovery_id: u8) -> (res:
    Option<[u8; 33]>)
    requires
        recovery_id < 4,
    ensures
        match res {
            Some(k) => ecdsa_recover(msg@, sig@, recovery_id) == Some(k@),
            None => ecdsa_recover(msg@, sig@, recovery_id) is None,
        },
{
    let id = RecoveryId::from_u8_masked(recovery_id);
    let sig = match RecoverableSignature::from_compact(sig, id) {
        Ok(s) => s,
        Err(_) => return None,
    };
    match sig.recover_ecdsa(Message::from_digest(*msg)) {
        Ok(pk) => Some(pk.serialize()),
        Err(_) => None,
    }
}

/// Verifies a signature with `RecoverableSignature::from_compact`,
/// `RecoverableSignature::to_standard`, `PublicKey::from_byte_array_compressed` and
/// `secp256k1::ecdsa::verify`: the result is `ecdsa_verify(msg, sig, recovery_id, pubkey)`.
#[verifier::external_body]
pub(crate) fn ecdsa_verify_compact(msg: &[u8; 32], sig: &[u8; 64], recovery_id: u8, pubkey: &[u8; 33]) -> (res: bool)
    requires
        recovery_id < 4,
    ensures
        res == ecdsa_verify(msg@, sig@, recovery_id, pubkey@),
{
    let id = RecoveryId::from_u8_masked(recovery_id);
    let sig = match RecoverableSignature::from_compact(sig, id) {
        Ok(s) => s.to_standard(),
        Err(_) => return false,
    };
    match PublicKey::from_byte_array_compressed(*pubkey) {
        Ok(pk) => secp256k1::ecdsa::verify(&sig, Message::from_digest(*msg), &pk).is_ok(),
        Err(_) => false,
    }
}

} // verus!
