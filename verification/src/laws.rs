//! Laws of the invoice model, stated in terms of the invoice's fields and values
//! rather than of the functions that compute them.

use vstd::arithmetic::power2::{lemma2_to64, pow2};
use vstd::prelude::*;

use crate::constants::{
    TAG_FALLBACK, TAG_ROUTE,
    TAG_DESCRIPTION, TAG_DESCRIPTION_HASH, TAG_EXPIRY_TIME, TAG_MIN_FINAL_CLTV_EXPIRY,
    TAG_PAYEE_PUB_KEY, TAG_PAYMENT_HASH,
};
use crate::fields::{
    count_tag, description_hash_of, description_of, expiry_time_of, fallbacks_of, first_with_tag,
    known_fields, lemma_count_push, lemma_first_with_tag, lemma_tag_identifies,
    min_final_cltv_expiry_of, payee_pub_key_of, payment_hash_of, routes_of, tag_of,
};
use crate::bits::{
    bit_at, bit_group, lemma_byte_from_bits, lemma_group_bits, lemma_group_bound,
    lemma_same_bits_same_groups, regroup,
};
use crate::encoding::{
    be32_value, data_part_base32, fields_base32, int_be_base32, lemma_int_be_base32_value,
    lemma_timestamp_encoding, payload_of, raw_field_base32, stretch, tagged_field_base32,
    MAX_TIMESTAMP,
    base32_of_bytes, decimal, fallback_payload, hop_bytes, hrp_bytes, lemma_route_bytes_len,
    route_bytes, u16_be_bytes, u32_be_bytes,
};
use crate::external::{ecdsa_recover, ecdsa_verify};
use crate::u5::{u5_values, U5};
use crate::invoice::{field_counts_check, semantic_check};
use crate::types::{
    utf8_bytes, RawDataPart, MAX_DESCRIPTION_BYTES, MAX_ROUTE_HOPS,
    Currency, Secp256k1Error, SignedRawInvoice, Description, ExpiryTime, MinFinalCltvExpiry, PayeePubKey, Sha256, Fallback, RawHrp, RawTaggedField, RouteHop, SemanticError, SiPrefix, TaggedField,
};

verus! {

/// The payment hash fields of `fields`.
pub open spec fn payment_hash_fields(fields: Seq<TaggedField>) -> Seq<TaggedField> {
    fields.filter(|tf: TaggedField| tf is PaymentHash)
}

/// The description and description hash fields of `fields`.
pub open spec fn description_fields(fields: Seq<TaggedField>) -> Seq<TaggedField> {
    fields.filter(|tf: TaggedField| tf is Description || tf is DescriptionHash)
}

/// Counting fields by tag counts the payment hash fields, and the description and
/// description hash fields together.
proof fn lemma_counts_are_filters(fields: Seq<TaggedField>)
    ensures
        count_tag(fields, TAG_PAYMENT_HASH) == payment_hash_fields(fields).len(),
        count_tag(fields, TAG_DESCRIPTION) + count_tag(fields, TAG_DESCRIPTION_HASH)
            == description_fields(fields).len(),
    decreases fields.len(),
{
    reveal_with_fuel(Seq::<_>::filter, 1);
    if fields.len() > 0 {
        let init = fields.drop_last();
        let last = fields.last();
        lemma_counts_are_filters(init);
        assert(init.push(last) =~= fields);
        lemma_count_push(init, last, TAG_PAYMENT_HASH);
        lemma_count_push(init, last, TAG_DESCRIPTION);
        lemma_count_push(init, last, TAG_DESCRIPTION_HASH);
        lemma_tag_identifies(last);
    }
}

/// BOLT #11: a writer must include exactly one payment hash field, and either exactly one
/// description or exactly one description hash field.  The field counts pass exactly when
/// the fields hold one payment hash field and one description-or-hash field in total, and
/// a failure names the first count that is wrong.
pub proof fn lemma_field_counts_law(fields: Seq<TaggedField>)
    ensures
        field_counts_check(fields) is Ok <==> (payment_hash_fields(fields).len() == 1
            && description_fields(fields).len() == 1),
        payment_hash_fields(fields).len() == 0 ==> field_counts_check(fields) == Err::<
            (),
            SemanticError,
        >(SemanticError::NoPaymentHash),
        payment_hash_fields(fields).len() > 1 ==> field_counts_check(fields) == Err::<
            (),
            SemanticError,
        >(SemanticError::MultiplePaymentHashes),
        payment_hash_fields(fields).len() == 1 && description_fields(fields).len() == 0
            ==> field_counts_check(fields) == Err::<(), SemanticError>(
            SemanticError::NoDescription,
        ),
        payment_hash_fields(fields).len() == 1 && description_fields(fields).len() > 1
            ==> field_counts_check(fields) == Err::<(), SemanticError>(
            SemanticError::MultipleDescriptions,
        ),
{
    lemma_counts_are_filters(fields);
}

/// The routes of an invoice are its route fields, one for each, in order.
pub proof fn lemma_routes_law(fields: Seq<TaggedField>)
    ensures
        routes_of(fields).map_values(|r| TaggedField::Route(r)) == fields.filter(
            |tf: TaggedField| tf is Route,
        ),
    decreases fields.len(),
{
    reveal_with_fuel(Seq::<_>::filter, 1);
    if fields.len() > 0 {
        lemma_routes_law(fields.drop_last());
        let prev = routes_of(fields.drop_last());
        match fields.last() {
            TaggedField::Route(r) => {
                assert(prev.push(r).map_values(|r| TaggedField::Route(r)) =~= prev.map_values(
                    |r| TaggedField::Route(r),
                ).push(TaggedField::Route(r)));
            },
            _ => {},
        }
    }
    assert(routes_of(fields).map_values(|r| TaggedField::Route(r)) =~= fields.filter(
        |tf: TaggedField| tf is Route,
    ));
}

/// The fallback addresses of an invoice are its fallback fields, one for each, in order.
pub proof fn lemma_fallbacks_law(fields: Seq<TaggedField>)
    ensures
        fallbacks_of(fields).map_values(|f| TaggedField::Fallback(f)) == fields.filter(
            |tf: TaggedField| tf is Fallback,
        ),
    decreases fields.len(),
{
    reveal_with_fuel(Seq::<_>::filter, 1);
    if fields.len() > 0 {
        lemma_fallbacks_law(fields.drop_last());
        let prev = fallbacks_of(fields.drop_last());
        match fields.last() {
            TaggedField::Fallback(f) => {
                assert(prev.push(f).map_values(|f| TaggedField::Fallback(f)) =~= prev.map_values(
                    |f| TaggedField::Fallback(f),
                ).push(TaggedField::Fallback(f)));
            },
            _ => {},
        }
    }
    assert(fallbacks_of(fields).map_values(|f| TaggedField::Fallback(f)) =~= fields.filter(
        |tf: TaggedField| tf is Fallback,
    ));
}

/// The known fields of an invoice are its fields of known semantics, in order.
pub proof fn lemma_known_fields_law(raw: Seq<RawTaggedField>)
    ensures
        known_fields(raw).map_values(|tf| RawTaggedField::KnownSemantics(tf)) == raw.filter(
            |f: RawTaggedField| f is KnownSemantics,
        ),
    decreases raw.len(),
{
    reveal_with_fuel(Seq::<_>::filter, 1);
    if raw.len() > 0 {
        lemma_known_fields_law(raw.drop_last());
        let prev = known_fields(raw.drop_last());
        match raw.last() {
            RawTaggedField::KnownSemantics(tf) => {
                assert(prev.push(tf).map_values(|tf| RawTaggedField::KnownSemantics(tf))
                    =~= prev.map_values(|tf| RawTaggedField::KnownSemantics(tf)).push(
                    RawTaggedField::KnownSemantics(tf),
                ));
            },
            _ => {},
        }
    }
    assert(known_fields(raw).map_values(|tf| RawTaggedField::KnownSemantics(tf)) =~= raw.filter(
        |f: RawTaggedField| f is KnownSemantics,
    ));
}

/// The number written by ASCII decimal digits.
pub open spec fn decimal_value(s: Seq<u8>) -> int
    decreases s.len(),
{
    if s.len() == 0 {
        0
    } else {
        decimal_value(s.drop_last()) * 10 + (s.last() - 48)
    }
}

/// The number written by big-endian bytes.
pub open spec fn be_bytes_value(s: Seq<u8>) -> nat
    decreases s.len(),
{
    if s.len() == 0 {
        0
    } else {
        be_bytes_value(s.drop_last()) * 256 + s.last() as nat
    }
}

/// The decimal form of a number is made of ASCII digits, has no leading zero, and is read
/// back as the number.
pub proof fn lemma_decimal_law(n: nat)
    ensures
        decimal(n).len() >= 1,
        forall|i: int| 0 <= i < decimal(n).len() ==> 48 <= #[trigger] decimal(n)[i] <= 57,
        decimal(n)[0] == 48 ==> n == 0,
        decimal_value(decimal(n)) == n,
    decreases n,
{
    if n >= 10 {
        lemma_decimal_law(n / 10);
        assert(decimal(n).drop_last() =~= decimal(n / 10));
        assert(decimal(n)[0] == decimal(n / 10)[0]);
        assert(decimal(n).last() == 48 + n % 10);
        assert(n == (n / 10) * 10 + n % 10);
    } else {
        assert(decimal(n).drop_last() =~= Seq::<u8>::empty());
        assert(decimal_value(decimal(n).drop_last()) == 0);
        assert(decimal(n).last() == 48 + n);
    }
}

/// The human readable part is `ln`, the two currency letters, the amount in decimal digits
/// when there is one (whether or not an SI prefix follows), and the SI prefix letter when
/// there is one.
pub proof fn lemma_hrp_layout(h: RawHrp)
    ensures
        hrp_bytes(h).len() == 4 + (match h.raw_amount {
            Some(a) => decimal(a as nat).len(),
            None => 0,
        }) + (if h.si_prefix is Some {
            1int
        } else {
            0
        }),
        hrp_bytes(h)[0] == 108 && hrp_bytes(h)[1] == 110,
        h.currency == Currency::Bitcoin ==> hrp_bytes(h)[2] == 98 && hrp_bytes(h)[3] == 99,
        h.currency == Currency::BitcoinTestnet ==> hrp_bytes(h)[2] == 116 && hrp_bytes(h)[3] == 98,
        h.raw_amount matches Some(a) ==> decimal_value(
            hrp_bytes(h).subrange(4, 4 + decimal(a as nat).len() as int),
        ) == a,
        h.si_prefix == Some(SiPrefix::Milli) ==> hrp_bytes(h).last() == 109,
        h.si_prefix == Some(SiPrefix::Micro) ==> hrp_bytes(h).last() == 117,
        h.si_prefix == Some(SiPrefix::Nano) ==> hrp_bytes(h).last() == 110,
        h.si_prefix == Some(SiPrefix::Pico) ==> hrp_bytes(h).last() == 112,
{
    match h.raw_amount {
        Some(a) => {
            lemma_decimal_law(a as nat);
            assert(hrp_bytes(h).subrange(4, 4 + decimal(a as nat).len() as int) =~= decimal(a as nat));
        },
        None => {},
    }
}

/// Four big-endian bytes are read back as the `u32` they were made from.
pub proof fn lemma_u32_be_law(x: u32)
    ensures
        u32_be_bytes(x).len() == 4,
        be_bytes_value(u32_be_bytes(x)) == x,
        u32_be_bytes(x)[0] * 0x100_0000 + u32_be_bytes(x)[1] * 0x1_0000 + u32_be_bytes(x)[2] * 256
            + u32_be_bytes(x)[3] == x,
{
    let b = u32_be_bytes(x);
    assert(b.drop_last().drop_last().drop_last().drop_last() =~= Seq::<u8>::empty());
    assert(be_bytes_value(b.drop_last().drop_last().drop_last().drop_last()) == 0);
    assert(b.drop_last().drop_last().drop_last().last() == b[0]);
    assert(b.drop_last().drop_last().last() == b[1]);
    assert(b.drop_last().last() == b[2]);
    assert(be_bytes_value(b.drop_last().drop_last().drop_last()) == b[0] as nat);
    assert(be_bytes_value(b.drop_last().drop_last()) == b[0] * 256 + b[1]);
    assert(be_bytes_value(b.drop_last()) == (b[0] * 256 + b[1]) * 256 + b[2]);
}

/// Two big-endian bytes are read back as the `u16` they were made from.
pub proof fn lemma_u16_be_law(x: u16)
    ensures
        u16_be_bytes(x).len() == 2,
        be_bytes_value(u16_be_bytes(x)) == x,
{
    let b = u16_be_bytes(x);
    assert(b.drop_last().drop_last() =~= Seq::<u8>::empty());
    assert(be_bytes_value(b.drop_last().drop_last()) == 0);
    assert(b.drop_last().last() == b[0]);
    assert(be_bytes_value(b.drop_last()) == b[0] as nat);
}

/// A route hop is written as its key, its channel id, then its base fee, proportional fee
/// and CLTV delta in big-endian, each read back as the value of the hop.
pub proof fn lemma_hop_layout(h: RouteHop)
    ensures
        hop_bytes(h).len() == 51,
        hop_bytes(h).subrange(0, 33) == h.pubkey@,
        hop_bytes(h).subrange(33, 41) == h.short_channel_id@,
        be_bytes_value(hop_bytes(h).subrange(41, 45)) == h.fee_base_msat,
        be_bytes_value(hop_bytes(h).subrange(45, 49)) == h.fee_proportional_millionths,
        be_bytes_value(hop_bytes(h).subrange(49, 51)) == h.cltv_expiry_delta,
{
    h.pubkey.lemma_len();
    lemma_u32_be_law(h.fee_base_msat);
    lemma_u32_be_law(h.fee_proportional_millionths);
    lemma_u16_be_law(h.cltv_expiry_delta);
    let b = hop_bytes(h);
    assert(b.subrange(0, 33) =~= h.pubkey@);
    assert(b.subrange(33, 41) =~= h.short_channel_id@);
    assert(b.subrange(41, 45) =~= u32_be_bytes(h.fee_base_msat));
    assert(b.subrange(45, 49) =~= u32_be_bytes(h.fee_proportional_millionths));
    assert(b.subrange(49, 51) =~= u16_be_bytes(h.cltv_expiry_delta));
}

/// The bytes of a route hold hop `i` at bytes `51 i .. 51 i + 51`.
pub proof fn lemma_route_layout(hops: Seq<RouteHop>, i: int)
    requires
        0 <= i < hops.len(),
    ensures
        route_bytes(hops).subrange(51 * i, 51 * i + 51) == hop_bytes(hops[i]),
    decreases hops.len(),
{
    let init = hops.drop_last();
    lemma_route_bytes_len(init);
    hops.last().pubkey.lemma_len();
    if i < hops.len() - 1 {
        lemma_route_layout(init, i);
        assert(route_bytes(hops).subrange(51 * i, 51 * i + 51) =~= route_bytes(init).subrange(
            51 * i,
            51 * i + 51,
        ));
    } else {
        assert(route_bytes(hops).subrange(51 * i, 51 * i + 51) =~= hop_bytes(hops.last()));
    }
}

/// A fallback address keeps its kind: the first value is the witness version for a
/// witness program, 17 for a pay-to-pubkey-hash and 18 for a pay-to-script-hash address,
/// followed by the program or hash regrouped into 5-bit values; the two hash kinds never
/// encode alike.
pub proof fn lemma_fallback_law(f: Fallback, a: [u8; 20], b: [u8; 20])
    ensures
        fallback_payload(Fallback::PubKeyHash(a))[0] == 17,
        fallback_payload(Fallback::ScriptHash(a))[0] == 18,
        fallback_payload(Fallback::PubKeyHash(a)).subrange(
            1,
            fallback_payload(Fallback::PubKeyHash(a)).len() as int,
        ) == base32_of_bytes(a@),
        fallback_payload(Fallback::ScriptHash(a)).subrange(
            1,
            fallback_payload(Fallback::ScriptHash(a)).len() as int,
        ) == base32_of_bytes(a@),
        f matches Fallback::SegWitProgram { version, program } ==> fallback_payload(f)[0]
            == version@ && fallback_payload(f).subrange(1, fallback_payload(f).len() as int)
            == base32_of_bytes(program@),
        fallback_payload(Fallback::PubKeyHash(a)) != fallback_payload(Fallback::ScriptHash(b)),
{
    let p = fallback_payload(Fallback::PubKeyHash(a));
    let q = fallback_payload(Fallback::ScriptHash(a));
    assert(p.subrange(1, p.len() as int) =~= base32_of_bytes(a@));
    assert(q.subrange(1, q.len() as int) =~= base32_of_bytes(a@));
    if let Fallback::SegWitProgram { version, program } = f {
        let r = fallback_payload(f);
        assert(r.subrange(1, r.len() as int) =~= base32_of_bytes(program@));
    }
    assert(fallback_payload(Fallback::PubKeyHash(a))[0] != fallback_payload(
        Fallback::ScriptHash(b),
    )[0]);
}

/// The first field that carries `tag` is at the first index whose field carries it; there
/// is none when no field carries it.
proof fn lemma_first_with_tag_law(fields: Seq<TaggedField>, tag: u8, i: int)
    ensures
        0 <= i < fields.len() && tag_of(fields[i]) == tag && (forall|j: int|
            0 <= j < i ==> tag_of(#[trigger] fields[j]) != tag) ==> first_with_tag(fields, tag)
            == Some(i),
        (forall|j: int| 0 <= j < fields.len() ==> tag_of(#[trigger] fields[j]) != tag)
            ==> first_with_tag(fields, tag) is None,
{
    if 0 <= i < fields.len() && tag_of(fields[i]) == tag && (forall|j: int|
        0 <= j < i ==> tag_of(#[trigger] fields[j]) != tag) {
        lemma_first_with_tag(fields, tag, i);
    }
    if forall|j: int| 0 <= j < fields.len() ==> tag_of(#[trigger] fields[j]) != tag {
        lemma_first_with_tag(fields, tag, fields.len() as int);
    }
}

/// The payment hash of an invoice is the one of its first payment hash field, and there is none
/// when it has no such field.
pub proof fn lemma_payment_hash_of_law(fields: Seq<TaggedField>, i: int, x: Sha256)
    ensures
        0 <= i < fields.len() && fields[i] == TaggedField::PaymentHash(x) && (forall|j: int|
            0 <= j < i ==> !(#[trigger] fields[j] is PaymentHash)) ==> payment_hash_of(fields) == Some(x),
        (forall|j: int| 0 <= j < fields.len() ==> !(#[trigger] fields[j] is PaymentHash)) ==> payment_hash_of(
            fields,
        ) is None,
{
    assert forall|j: int| 0 <= j < fields.len() implies (tag_of(#[trigger] fields[j]) == TAG_PAYMENT_HASH
        <==> fields[j] is PaymentHash) by {
        lemma_tag_identifies(fields[j]);
    }
    lemma_first_with_tag_law(fields, TAG_PAYMENT_HASH, i);
}

/// The description of an invoice is the one of its first description field, and there is none
/// when it has no such field.
pub proof fn lemma_description_of_law(fields: Seq<TaggedField>, i: int, x: Description)
    ensures
        0 <= i < fields.len() && fields[i] == TaggedField::Description(x) && (forall|j: int|
            0 <= j < i ==> !(#[trigger] fields[j] is Description)) ==> description_of(fields) == Some(x),
        (forall|j: int| 0 <= j < fields.len() ==> !(#[trigger] fields[j] is Description)) ==> description_of(
            fields,
        ) is None,
{
    assert forall|j: int| 0 <= j < fields.len() implies (tag_of(#[trigger] fields[j]) == TAG_DESCRIPTION
        <==> fields[j] is Description) by {
        lemma_tag_identifies(fields[j]);
    }
    lemma_first_with_tag_law(fields, TAG_DESCRIPTION, i);
}

/// The payee public key of an invoice is the one of its first payee public key field, and there is none
/// when it has no such field.
pub proof fn lemma_payee_pub_key_of_law(fields: Seq<TaggedField>, i: int, x: PayeePubKey)
    ensures
        0 <= i < fields.len() && fields[i] == TaggedField::PayeePubKey(x) && (forall|j: int|
            0 <= j < i ==> !(#[trigger] fields[j] is PayeePubKey)) ==> payee_pub_key_of(fields) == Some(x),
        (forall|j: int| 0 <= j < fields.len() ==> !(#[trigger] fields[j] is PayeePubKey)) ==> payee_pub_key_of(
            fields,
        ) is None,
{
    assert forall|j: int| 0 <= j < fields.len() implies (tag_of(#[trigger] fields[j]) == TAG_PAYEE_PUB_KEY
        <==> fields[j] is PayeePubKey) by {
        lemma_tag_identifies(fields[j]);
    }
    lemma_first_with_tag_law(fields, TAG_PAYEE_PUB_KEY, i);
}

/// The description hash of an invoice is the one of its first description hash field, and there is none
/// when it has no such field.
pub proof fn lemma_description_hash_of_law(fields: Seq<TaggedField>, i: int, x: Sha256)
    ensures
        0 <= i < fields.len() && fields[i] == TaggedField::DescriptionHash(x) && (forall|j: int|
            0 <= j < i ==> !(#[trigger] fields[j] is DescriptionHash)) ==> description_hash_of(fields) == Some(x),
        (forall|j: int| 0 <= j < fields.len() ==> !(#[trigger] fields[j] is DescriptionHash)) ==> description_hash_of(
            fields,
        ) is None,
{
    assert forall|j: int| 0 <= j < fields.len() implies (tag_of(#[trigger] fields[j]) == TAG_DESCRIPTION_HASH
        <==> fields[j] is DescriptionHash) by {
        lemma_tag_identifies(fields[j]);
    }
    lemma_first_with_tag_law(fields, TAG_DESCRIPTION_HASH, i);
}

/// The expiry time of an invoice is the one of its first expiry time field, and there is none
/// when it has no such field.
pub proof fn lemma_expiry_time_of_law(fields: Seq<TaggedField>, i: int, x: ExpiryTime)
    ensures
        0 <= i < fields.len() && fields[i] == TaggedField::ExpiryTime(x) && (forall|j: int|
            0 <= j < i ==> !(#[trigger] fields[j] is ExpiryTime)) ==> expiry_time_of(fields) == Some(x),
        (forall|j: int| 0 <= j < fields.len() ==> !(#[trigger] fields[j] is ExpiryTime)) ==> expiry_time_of(
            fields,
        ) is None,
{
    assert forall|j: int| 0 <= j < fields.len() implies (tag_of(#[trigger] fields[j]) == TAG_EXPIRY_TIME
        <==> fields[j] is ExpiryTime) by {
        lemma_tag_identifies(fields[j]);
    }
    lemma_first_with_tag_law(fields, TAG_EXPIRY_TIME, i);
}

/// The `min_final_cltv_expiry` of an invoice is the one of its first `min_final_cltv_expiry` field, and there is none
/// when it has no such field.
pub proof fn lemma_min_final_cltv_expiry_of_law(fields: Seq<TaggedField>, i: int, x: MinFinalCltvExpiry)
    ensures
        0 <= i < fields.len() && fields[i] == TaggedField::MinFinalCltvExpiry(x) && (forall|j: int|
            0 <= j < i ==> !(#[trigger] fields[j] is MinFinalCltvExpiry)) ==> min_final_cltv_expiry_of(fields) == Some(x),
        (forall|j: int| 0 <= j < fields.len() ==> !(#[trigger] fields[j] is MinFinalCltvExpiry)) ==> min_final_cltv_expiry_of(
            fields,
        ) is None,
{
    assert forall|j: int| 0 <= j < fields.len() implies (tag_of(#[trigger] fields[j]) == TAG_MIN_FINAL_CLTV_EXPIRY
        <==> fields[j] is MinFinalCltvExpiry) by {
        lemma_tag_identifies(fields[j]);
    }
    lemma_first_with_tag_law(fields, TAG_MIN_FINAL_CLTV_EXPIRY, i);
}

/// A recovery id is refused exactly when it is outside `0..4`; otherwise the recovered key
/// is the one the signature over the hash yields, and recovery fails only if there is none.
pub proof fn lemma_recovery_law(s: SignedRawInvoice)
    ensures
        s.recovery() == Err::<Seq<u8>, Secp256k1Error>(Secp256k1Error::InvalidRecoveryId) <==> (
        s.signature.recovery_id < 0 || s.signature.recovery_id > 3),
        0 <= s.signature.recovery_id <= 3 ==> match ecdsa_recover(
            s.hash@,
            s.signature.compact@,
            s.signature.recovery_id as u8,
        ) {
            Some(k) => s.recovery() == Ok::<Seq<u8>, Secp256k1Error>(k),
            None => s.recovery() == Err::<Seq<u8>, Secp256k1Error>(
                Secp256k1Error::InvalidSignature,
            ),
        },
{
}

/// The signature is checked against the first payee key field when the invoice has one, and
/// against the recovered key when it has none; either way a key must be recoverable.
pub proof fn lemma_signature_key_law(s: SignedRawInvoice, i: int, k: PayeePubKey)
    ensures
        ({
            let fields = s.raw_invoice.known();
            0 <= i < fields.len() && fields[i] == TaggedField::PayeePubKey(k) && (forall|j: int|
                0 <= j < i ==> !(#[trigger] fields[j] is PayeePubKey)) ==> (s.signature_valid()
                <==> (s.recovery() is Ok && ecdsa_verify(
                s.hash@,
                s.signature.compact@,
                s.signature.recovery_id as u8,
                k.0@,
            )))
        }),
        ({
            let fields = s.raw_invoice.known();
            (forall|j: int| 0 <= j < fields.len() ==> !(#[trigger] fields[j] is PayeePubKey)) ==> (
            s.signature_valid() <==> (s.recovery() is Ok && ecdsa_verify(
                s.hash@,
                s.signature.compact@,
                s.signature.recovery_id as u8,
                s.recovery().unwrap(),
            )))
        }),
{
    lemma_payee_pub_key_of_law(s.raw_invoice.known(), i, k);
}

/// A signed invoice passes the semantic checks exactly when it has one payment hash field,
/// one description-or-hash field, a recoverable key and a signature that checks out.
pub proof fn lemma_semantic_check_law(s: SignedRawInvoice)
    ensures
        semantic_check(s) is Ok <==> (payment_hash_fields(s.raw_invoice.known()).len() == 1
            && description_fields(s.raw_invoice.known()).len() == 1 && s.recovery() is Ok
            && s.signature_valid()),
{
    lemma_field_counts_law(s.raw_invoice.known());
}

/// The 5-bit values made from bytes carry the bytes' bit string, bit by bit.
#[verifier::spinoff_prover]
proof fn lemma_base32_bits(b: Seq<u8>)
    ensures
        forall|k: int| bit_at(base32_of_bytes(b), 5, k) == bit_at(b, 8, k),
{
    let n = b.len();
    let c = (n * 8 + 4) / 5;
    let t = base32_of_bytes(b);
    lemma2_to64();
    assert forall|k: int| bit_at(t, 5, k) == bit_at(b, 8, k) by {
        if 0 <= k < c * 5 {
            let q = k / 5;
            let r = k % 5;
            assert(0 <= q < c && q * 5 + r == k);
            lemma_group_bound(b, 8, q * 5, 5);
            lemma_group_bits(b, 8, q * 5, 5, r);
            assert(t[q] as nat == bit_group(b, 8, q * 5, 5));
        } else {
            assert(k < 0 || k >= n * 8);
        }
    }
}

/// Regrouping bytes into 5-bit values loses nothing: regrouping the values back into bytes
/// gives the bytes again.
#[verifier::spinoff_prover]
pub proof fn lemma_base32_roundtrip(b: Seq<u8>)
    ensures
        regroup(base32_of_bytes(b), 5, 8, b.len()) == b,
{
    let n = b.len();
    let t = base32_of_bytes(b);
    lemma_base32_bits(b);
    assert forall|i: int| 0 <= i < n implies regroup(t, 5, 8, n)[i] == b[i] by {
        lemma_same_bits_same_groups(t, 5, b, 8, i * 8, 8);
        lemma_byte_from_bits(b, i, 8);
        lemma2_to64();
        assert(pow2((8 - 8) as nat) == 1);
        assert((b[i] as nat) / 1 == b[i] as nat);
        assert(bit_group(b, 8, 8 * i, 8) == b[i] as nat);
        assert(8 * i == i * 8);
    }
    assert(regroup(t, 5, 8, n) =~= b);
}

/// The limits and tags that BOLT #11 fixes: descriptions of at most 639 bytes, routes of at
/// most 12 hops, timestamps of at most 35 bits, and the tag of each kind of field.
pub proof fn lemma_format_constants()
    ensures
        MAX_DESCRIPTION_BYTES == 639,
        MAX_ROUTE_HOPS == 12,
        MAX_TIMESTAMP == 0x7_ffff_ffff,
        TAG_PAYMENT_HASH == 1,
        TAG_DESCRIPTION == 13,
        TAG_PAYEE_PUB_KEY == 19,
        TAG_DESCRIPTION_HASH == 23,
        TAG_EXPIRY_TIME == 6,
        TAG_MIN_FINAL_CLTV_EXPIRY == 24,
        TAG_FALLBACK == 9,
        TAG_ROUTE == 3,
{
}

/// The data of each known field loses nothing: hashes, keys, descriptions and routes
/// regroup back into their bytes, and durations are read back as their values.
pub proof fn lemma_payload_law(tf: TaggedField)
    ensures
        tf matches TaggedField::PaymentHash(h) ==> regroup(payload_of(tf), 5, 8, h.0@.len()) == h.0@,
        tf matches TaggedField::DescriptionHash(h) ==> regroup(payload_of(tf), 5, 8, h.0@.len())
            == h.0@,
        tf matches TaggedField::Description(d) ==> regroup(
            payload_of(tf),
            5,
            8,
            utf8_bytes(d@).len(),
        ) == utf8_bytes(d@),
        tf matches TaggedField::PayeePubKey(k) ==> regroup(payload_of(tf), 5, 8, k.0@.len())
            == k.0@,
        tf matches TaggedField::ExpiryTime(e) ==> be32_value(payload_of(tf)) == e.seconds,
        tf matches TaggedField::MinFinalCltvExpiry(c) ==> be32_value(payload_of(tf)) == c.0,
        tf matches TaggedField::Route(r) ==> regroup(payload_of(tf), 5, 8, route_bytes(r@).len())
            == route_bytes(r@),
        tf matches TaggedField::Fallback(f) ==> payload_of(tf) == fallback_payload(f),
{
    match tf {
        TaggedField::PaymentHash(h) => lemma_base32_roundtrip(h.0@),
        TaggedField::DescriptionHash(h) => lemma_base32_roundtrip(h.0@),
        TaggedField::Description(d) => lemma_base32_roundtrip(utf8_bytes(d@)),
        TaggedField::PayeePubKey(k) => lemma_base32_roundtrip(k.0@),
        TaggedField::ExpiryTime(e) => lemma_int_be_base32_value(e.seconds as nat),
        TaggedField::MinFinalCltvExpiry(c) => lemma_int_be_base32_value(c.0 as nat),
        TaggedField::Route(r) => lemma_base32_roundtrip(route_bytes(r@)),
        TaggedField::Fallback(_) => {},
    }
}

/// The tagged fields are written one after the other, in order: the encoding of two runs of
/// fields is the encoding of the first followed by that of the second, and a field of unknown
/// semantics is written as its values, unchanged.
pub proof fn lemma_fields_concat_law(a: Seq<RawTaggedField>, b: Seq<RawTaggedField>)
    ensures
        fields_base32(a + b) == fields_base32(a) + fields_base32(b),
        forall|v: Vec<U5>| #[trigger] raw_field_base32(RawTaggedField::UnknownSemantics(v))
            == u5_values(v@),
        forall|tf: TaggedField| #[trigger] raw_field_base32(RawTaggedField::KnownSemantics(tf))
            == tagged_field_base32(tf),
    decreases b.len(),
{
    if b.len() == 0 {
        assert(a + b =~= a);
        assert(fields_base32(a) + fields_base32(b) =~= fields_base32(a));
    } else {
        lemma_fields_concat_law(a, b.drop_last());
        assert((a + b).drop_last() =~= a + b.drop_last());
        assert((a + b).last() == b.last());
        assert(fields_base32(a + b) =~= fields_base32(a) + fields_base32(b));
    }
}

/// The data part is the timestamp in seven digits that stand for it, then the fields.
pub proof fn lemma_data_part_layout(d: RawDataPart)
    requires
        d.timestamp <= MAX_TIMESTAMP,
    ensures
        data_part_base32(d).subrange(0, 7) == stretch(int_be_base32(d.timestamp as nat), 7),
        be32_value(data_part_base32(d).subrange(0, 7)) == d.timestamp,
        data_part_base32(d).subrange(7, data_part_base32(d).len() as int) == fields_base32(
            d.tagged_fields@,
        ),
{
    lemma_timestamp_encoding(d.timestamp);
    let e = data_part_base32(d);
    assert(e.subrange(0, 7) =~= stretch(int_be_base32(d.timestamp as nat), 7));
    assert(e.subrange(7, e.len() as int) =~= fields_base32(d.tagged_fields@));
}

} // verus!
