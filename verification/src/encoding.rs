//! The BOLT #11 encoding that the invoice hash is computed over: the human
//! readable part as bytes and the data part (without signature) as 5-bit values.

use vstd::prelude::*;

use crate::bits::{lemma_same_bits_same_groups, lemma_zero_extension, pack, regroup};
use crate::external::{convert_bits_vec, sha256, sha256_digest};
use crate::fields::tag_of;
use vstd::arithmetic::div_mod::{lemma_add_mod_noop_right, lemma_mul_mod_noop_left};
use crate::types::{
    utf8_bytes, Currency, Fallback, RawDataPart, RawHrp, RawInvoice, RawTaggedField, RouteHop,
    SiPrefix, TaggedField, MAX_DESCRIPTION_BYTES, MAX_ROUTE_HOPS,
};
use crate::u5::{all_five_bit, u5_values, U5};

verus! {

broadcast use vstd::array::group_array_axioms;

/// Big-endian base-32 digits of `n`, without leading zeros (empty for zero).
pub open spec fn int_be_base32(n: nat) -> Seq<u8>
    decreases n,
{
    if n == 0 {
        seq![]
    } else {
        int_be_base32(n / 32).push((n % 32) as u8)
    }
}

/// `s`, left-padded with zeros to `len` values (unchanged if it is not shorter).
pub open spec fn stretch(s: Seq<u8>, len: nat) -> Seq<u8> {
    if s.len() >= len {
        s
    } else {
        Seq::new((len - s.len()) as nat, |i: int| 0u8) + s
    }
}

/// The bytes of `b` regrouped into 5-bit values, zero padded at the end.
pub open spec fn base32_of_bytes(b: Seq<u8>) -> Seq<u8> {
    regroup(b, 8, 5, (b.len() * 8 + 4) / 5)
}

/// Big-endian bytes of a `u32`.
pub open spec fn u32_be_bytes(x: u32) -> Seq<u8> {
    seq![
        (x / 0x100_0000) as u8,
        ((x / 0x1_0000) % 256) as u8,
        ((x / 256) % 256) as u8,
        (x % 256) as u8,
    ]
}

/// Big-endian bytes of a `u16`.
pub open spec fn u16_be_bytes(x: u16) -> Seq<u8> {
    seq![(x / 256) as u8, (x % 256) as u8]
}

/// The 51 bytes of one route hop.
pub open spec fn hop_bytes(h: RouteHop) -> Seq<u8> {
    h.pubkey@ + h.short_channel_id@ + u32_be_bytes(h.fee_base_msat) + u32_be_bytes(
        h.fee_proportional_millionths,
    ) + u16_be_bytes(h.cltv_expiry_delta)
}

/// The bytes of a route: its hops, one after the other.
pub open spec fn route_bytes(hops: Seq<RouteHop>) -> Seq<u8>
    decreases hops.len(),
{
    if hops.len() == 0 {
        seq![]
    } else {
        route_bytes(hops.drop_last()) + hop_bytes(hops.last())
    }
}

/// The data of a fallback address field.
pub open spec fn fallback_payload(f: Fallback) -> Seq<u8> {
    match f {
        Fallback::SegWitProgram { version, program } => seq![version@] + base32_of_bytes(program@),
        Fallback::PubKeyHash(h) => seq![17u8] + base32_of_bytes(h@),
        Fallback::ScriptHash(h) => seq![18u8] + base32_of_bytes(h@),
    }
}

/// The data of a tagged field with known semantics, as 5-bit values.
pub open spec fn payload_of(tf: TaggedField) -> Seq<u8> {
    match tf {
        TaggedField::PaymentHash(h) => base32_of_bytes(h.0@),
        TaggedField::Description(d) => base32_of_bytes(utf8_bytes(d@)),
        TaggedField::PayeePubKey(k) => base32_of_bytes(k.0@),
        TaggedField::DescriptionHash(h) => base32_of_bytes(h.0@),
        TaggedField::ExpiryTime(e) => int_be_base32(e.seconds as nat),
        TaggedField::MinFinalCltvExpiry(c) => int_be_base32(c.0 as nat),
        TaggedField::Fallback(f) => fallback_payload(f),
        TaggedField::Route(r) => base32_of_bytes(route_bytes(r@)),
    }
}

/// A tagged field: its tag, the length of its data in two base-32 digits, its data.
pub open spec fn tagged_field_base32(tf: TaggedField) -> Seq<u8> {
    seq![tag_of(tf)] + stretch(int_be_base32(payload_of(tf).len()), 2) + payload_of(tf)
}

/// A raw tagged field; the values of a field of unknown semantics are kept as they are.
pub open spec fn raw_field_base32(f: RawTaggedField) -> Seq<u8> {
    match f {
        RawTaggedField::KnownSemantics(tf) => tagged_field_base32(tf),
        RawTaggedField::UnknownSemantics(v) => u5_values(v@),
    }
}

/// The tagged fields, one after the other.
pub open spec fn fields_base32(fields: Seq<RawTaggedField>) -> Seq<u8>
    decreases fields.len(),
{
    if fields.len() == 0 {
        seq![]
    } else {
        fields_base32(fields.drop_last()) + raw_field_base32(fields.last())
    }
}

/// The data part without signature: the timestamp in seven digits, then the tagged fields.
pub open spec fn data_part_base32(d: RawDataPart) -> Seq<u8> {
    stretch(int_be_base32(d.timestamp as nat), 7) + fields_base32(d.tagged_fields@)
}

/// ASCII decimal digits of `n`.
pub open spec fn decimal(n: nat) -> Seq<u8>
    decreases n,
{
    if n < 10 {
        seq![(48 + n) as u8]
    } else {
        decimal(n / 10).push((48 + n % 10) as u8)
    }
}

/// The two letters that name the currency.
pub open spec fn currency_bytes(c: Currency) -> Seq<u8> {
    match c {
        Currency::Bitcoin => seq![98u8, 99u8],
        Currency::BitcoinTestnet => seq![116u8, 98u8],
    }
}

/// The letter of an SI prefix.
pub open spec fn si_prefix_byte(p: SiPrefix) -> u8 {
    match p {
        SiPrefix::Milli => 109u8,
        SiPrefix::Micro => 117u8,
        SiPrefix::Nano => 110u8,
        SiPrefix::Pico => 112u8,
    }
}

/// The human readable part: `ln`, the currency, the amount in decimal and the SI prefix.
pub open spec fn hrp_bytes(h: RawHrp) -> Seq<u8> {
    seq![108u8, 110u8] + currency_bytes(h.currency) + match h.raw_amount {
        Some(a) => decimal(a as nat),
        None => seq![],
    } + match h.si_prefix {
        Some(p) => seq![si_prefix_byte(p)],
        None => seq![],
    }
}

/// The number that big-endian base-32 digits stand for.
pub open spec fn be32_value(s: Seq<u8>) -> nat
    decreases s.len(),
{
    if s.len() == 0 {
        0
    } else {
        be32_value(s.drop_last()) * 32 + s.last() as nat
    }
}

/// The digits of `n` stand for `n`: the integer encoding loses nothing.
pub proof fn lemma_int_be_base32_value(n: nat)
    ensures
        be32_value(int_be_base32(n)) == n,
    decreases n,
{
    if n > 0 {
        lemma_int_be_base32_value(n / 32);
        assert(int_be_base32(n).drop_last() =~= int_be_base32(n / 32));
    }
}

/// Leading zeros do not change the number that digits stand for.
pub proof fn lemma_be32_value_leading_zeros(k: nat, s: Seq<u8>)
    ensures
        be32_value(Seq::new(k, |i: int| 0u8) + s) == be32_value(s),
    decreases s.len(), k,
{
    let z = Seq::new(k, |i: int| 0u8);
    if s.len() == 0 {
        assert(z + s =~= z);
        if k > 0 {
            let z1 = Seq::new((k - 1) as nat, |i: int| 0u8);
            assert(z.drop_last() =~= z1);
            lemma_be32_value_leading_zeros((k - 1) as nat, s);
            assert(z1 + s =~= z1);
        }
    } else {
        lemma_be32_value_leading_zeros(k, s.drop_last());
        assert((z + s).drop_last() =~= z + s.drop_last());
    }
}

/// A timestamp up to `MAX_TIMESTAMP` is encoded in exactly seven digits that stand for it.
pub proof fn lemma_timestamp_encoding(ts: u64)
    requires
        ts <= MAX_TIMESTAMP,
    ensures
        stretch(int_be_base32(ts as nat), 7).len() == 7,
        be32_value(stretch(int_be_base32(ts as nat), 7)) == ts,
{
    reveal_with_fuel(below_pow32, 8);
    lemma_int_be_base32(ts as nat, 7);
    lemma_int_be_base32_value(ts as nat);
    let d = int_be_base32(ts as nat);
    if d.len() < 7 {
        lemma_be32_value_leading_zeros((7 - d.len()) as nat, d);
    }
}

/// A tagged field is its tag, two digits that count the values of its data, and its data:
/// a reader can find where each field ends.
pub proof fn lemma_tagged_field_layout(tf: TaggedField)
    requires
        payload_of(tf).len() < 1024,
    ensures
        tagged_field_base32(tf).len() == payload_of(tf).len() + 3,
        tagged_field_base32(tf)[0] == tag_of(tf),
        tagged_field_base32(tf)[1] * 32 + tagged_field_base32(tf)[2] == payload_of(tf).len(),
        tagged_field_base32(tf).subrange(3, tagged_field_base32(tf).len() as int) == payload_of(
            tf,
        ),
{
    let n = payload_of(tf).len();
    reveal_with_fuel(below_pow32, 3);
    lemma_int_be_base32(n, 2);
    lemma_int_be_base32_value(n);
    let d = int_be_base32(n);
    if d.len() < 2 {
        lemma_be32_value_leading_zeros((2 - d.len()) as nat, d);
    }
    let two = stretch(d, 2);
    assert(two.len() == 2);
    assert(two.drop_last().drop_last() =~= Seq::<u8>::empty());
    assert(be32_value(two.drop_last()) == two[0] as nat);
    assert(be32_value(two) == two[0] * 32 + two[1]);
    let e = tagged_field_base32(tf);
    assert(e.subrange(3, e.len() as int) =~= payload_of(tf));
}

/// `n` is below `32^k`.
pub open spec fn below_pow32(n: nat, k: nat) -> bool
    decreases k,
{
    if k == 0 {
        n == 0
    } else {
        below_pow32(n / 32, (k - 1) as nat)
    }
}

/// A number below `32^k` has at most `k` base-32 digits, all below 32.
pub proof fn lemma_int_be_base32(n: nat, k: nat)
    requires
        below_pow32(n, k),
    ensures
        int_be_base32(n).len() <= k,
        all_five_bit(int_be_base32(n)),
    decreases k,
{
    if n != 0 {
        lemma_int_be_base32(n / 32, (k - 1) as nat);
    }
}

/// Every `u64` is below `32^13`.
pub proof fn lemma_u64_below_pow32(n: u64)
    ensures
        below_pow32(n as nat, 13),
{
    reveal_with_fuel(below_pow32, 14);
}

/// The big-endian base-32 digits of `n`, as `U5`s.
fn encode_int_be_base32(n: u64) -> (res: Vec<U5>)
    ensures
        u5_values(res@) == int_be_base32(n as nat),
    decreases n,
{
    if n == 0 {
        let res: Vec<U5> = Vec::new();
        assert(u5_values(res@) =~= int_be_base32(n as nat));
        res
    } else {
        let mut res = encode_int_be_base32(n / 32);
        let ghost before = res@;
        res.push(U5::from_u8_in_range((n % 32) as u8));
        assert(u5_values(res@) =~= u5_values(before).push((n % 32) as u8));
        res
    }
}

/// `v` left-padded with zeros to `len` values; `None` if it is longer.
fn try_stretch(v: Vec<U5>, len: usize) -> (res: Option<Vec<U5>>)
    ensures
        v@.len() > len ==> res is None,
        v@.len() <= len ==> (res matches Some(s) && u5_values(s@) == stretch(u5_values(v@), len as nat)),
{
    if v.len() > len {
        None
    } else if v.len() == len {
        Some(v)
    } else {
        let mut v = v;
        let pad = len - v.len();
        let mut out: Vec<U5> = Vec::new();
        let mut i: usize = 0;
        while i < pad
            invariant
                i <= pad,
                u5_values(out@) =~= Seq::new(i as nat, |j: int| 0u8),
            decreases pad - i,
        {
            let ghost before = out@;
            out.push(U5::from_u8_in_range(0));
            assert(u5_values(out@) =~= u5_values(before).push(0u8));
            i += 1;
        }
        let ghost zeros = out@;
        let ghost tail = v@;
        out.append(&mut v);
        assert(u5_values(out@) =~= u5_values(zeros) + u5_values(tail));
        Some(out)
    }
}

/// Appends the values of `tail` to `out`.
fn append_u5s(out: &mut Vec<U5>, tail: Vec<U5>)
    ensures
        u5_values(final(out)@) == u5_values(old(out)@) + u5_values(tail@),
        final(out)@.len() == old(out)@.len() + tail@.len(),
{
    let mut tail = tail;
    let ghost a = out@;
    let ghost b = tail@;
    out.append(&mut tail);
    assert(u5_values(out@) =~= u5_values(a) + u5_values(b));
}

/// The bytes of `bytes` regrouped into 5-bit values, zero padded at the end.
fn bytes_to_base32(bytes: &[u8]) -> (res: Vec<U5>)
    ensures
        u5_values(res@) == base32_of_bytes(bytes@),
        res@.len() == (bytes@.len() * 8 + 4) / 5,
{
    match convert_bits_vec(bytes, 8, 5, true) {
        Some(v) => {
            let mut out: Vec<U5> = Vec::new();
            let mut i: usize = 0;
            while i < v.len()
                invariant
                    i <= v@.len(),
                    all_five_bit(v@),
                    u5_values(out@) =~= v@.take(i as int),
                decreases v@.len() - i,
            {
                out.push(U5::from_u8_in_range(v[i]));
                assert(v@.take(i + 1) =~= v@.take(i as int).push(v@[i as int]));
                i += 1;
            }
            assert(v@.take(v@.len() as int) =~= v@);
            out
        },
        None => {
            proof {
                assert(false);
            }
            Vec::new()
        },
    }
}

/// Appends the ASCII decimal digits of `n` to `out`.
fn push_decimal(n: u64, out: &mut Vec<u8>)
    ensures
        final(out)@ == old(out)@ + decimal(n as nat),
    decreases n,
{
    if n >= 10 {
        push_decimal(n / 10, out);
    }
    out.push(48 + (n % 10) as u8);
}

/// Big-endian bytes of a `u32`.
fn u32_be(x: u32) -> (res: [u8; 4])
    ensures
        res@ == u32_be_bytes(x),
{
    let res = [(x / 0x100_0000) as u8, ((x / 0x1_0000) % 256) as u8, ((x / 256) % 256) as u8, (x % 256) as u8];
    assert(res@ =~= u32_be_bytes(x));
    res
}

/// Appends all of `src` to `out`.
fn push_all(out: &mut Vec<u8>, src: &[u8])
    ensures
        final(out)@ == old(out)@ + src@,
{
    let mut i: usize = 0;
    while i < src.len()
        invariant
            i <= src@.len(),
            out@ == old(out)@ + src@.take(i as int),
        decreases src@.len() - i,
    {
        out.push(src[i]);
        assert(src@.take(i + 1) =~= src@.take(i as int).push(src@[i as int]));
        i += 1;
    }
    assert(src@.take(src@.len() as int) =~= src@);
}

/// The bytes of the given hops.
fn route_to_bytes(hops: &Vec<RouteHop>) -> (res: Vec<u8>)
    ensures
        res@ == route_bytes(hops@),
{
    let mut out: Vec<u8> = Vec::new();
    let mut i: usize = 0;
    while i < hops.len()
        invariant
            i <= hops@.len(),
            out@ == route_bytes(hops@.take(i as int)),
        decreases hops@.len() - i,
    {
        let hop = &hops[i];
        let ghost before = out@;
        push_all(&mut out, &hop.pubkey.serialize());
        push_all(&mut out, &hop.short_channel_id);
        push_all(&mut out, &u32_be(hop.fee_base_msat));
        push_all(&mut out, &u32_be(hop.fee_proportional_millionths));
        let cltv = [(hop.cltv_expiry_delta / 256) as u8, (hop.cltv_expiry_delta % 256) as u8];
        assert(cltv@ =~= u16_be_bytes(hop.cltv_expiry_delta));
        push_all(&mut out, &cltv);
        assert(hops@.take(i + 1).drop_last() =~= hops@.take(i as int));
        assert(out@ =~= before + hop_bytes(hops@[i as int]));
        i += 1;
    }
    assert(hops@.take(hops@.len() as int) =~= hops@);
    out
}

/// Longest witness program of a fallback address whose field still fits.
pub const MAX_WITNESS_PROGRAM_BYTES: usize = 638;

/// The field's data fits in the 1023 values that its length prefix can count.
pub open spec fn field_encodable(tf: TaggedField) -> bool {
    match tf {
        TaggedField::Fallback(Fallback::SegWitProgram { program, .. }) => program@.len()
            <= MAX_WITNESS_PROGRAM_BYTES,
        _ => true,
    }
}

/// A raw tagged field can be encoded.
pub open spec fn raw_field_encodable(f: RawTaggedField) -> bool {
    match f {
        RawTaggedField::KnownSemantics(tf) => field_encodable(tf),
        RawTaggedField::UnknownSemantics(_) => true,
    }
}

/// Largest timestamp that fits in seven base-32 digits.
pub const MAX_TIMESTAMP: u64 = 0x7_ffff_ffff;

impl RawDataPart {
    /// The data part can be encoded: the timestamp fits in seven base-32 digits and each
    /// field's data fits its length prefix.
    pub open spec fn encodable(&self) -> bool {
        &&& self.timestamp <= MAX_TIMESTAMP
        &&& forall|i: int|
            0 <= i < self.tagged_fields@.len() ==> raw_field_encodable(
                #[trigger] self.tagged_fields@[i],
            )
    }
}

/// The bytes of a route have 51 bytes per hop.
pub proof fn lemma_route_bytes_len(hops: Seq<RouteHop>)
    ensures
        route_bytes(hops).len() == 51 * hops.len(),
    decreases hops.len(),
{
    if hops.len() > 0 {
        lemma_route_bytes_len(hops.drop_last());
        hops.last().pubkey.lemma_len();
    }
}

/// A route of at most 12 hops takes 51 bytes per hop, which regroup into fewer than 1024
/// five-bit values: every route fits in one tagged field.
pub proof fn lemma_route_fits(hops: Seq<RouteHop>)
    requires
        hops.len() <= MAX_ROUTE_HOPS,
    ensures
        route_bytes(hops).len() == 51 * hops.len(),
        (route_bytes(hops).len() * 8 + 4) / 5 < 1024,
{
    lemma_route_bytes_len(hops);
}

/// Up to 639 bytes (the longest description) regroup into at most 1023 five-bit values.
pub proof fn lemma_base32_len(n: nat)
    requires
        n <= MAX_DESCRIPTION_BYTES,
    ensures
        (n * 8 + 4) / 5 <= 1023,
{
}

/// A tagged field: the tag, the length of the data in two digits, the data.
fn write_tagged_field(tag: U5, payload: Vec<U5>) -> (res: Vec<U5>)
    requires
        payload@.len() < 1024,
    ensures
        u5_values(res@) == seq![tag@] + stretch(int_be_base32(payload@.len()), 2) + u5_values(
            payload@,
        ),
{
    let len = payload.len();
    let digits = encode_int_be_base32(len as u64);
    proof {
        reveal_with_fuel(below_pow32, 3);
        lemma_int_be_base32(len as nat, 2);
    }
    let sized = match try_stretch(digits, 2) {
        Some(s) => s,
        None => {
            proof {
                assert(false);
            }
            Vec::new()
        },
    };
    let mut data: Vec<U5> = Vec::new();
    data.push(tag);
    assert(u5_values(data@) =~= seq![tag@]);
    append_u5s(&mut data, sized);
    append_u5s(&mut data, payload);
    data
}

/// A copy of the given values.
fn copy_u5s(v: &Vec<U5>) -> (res: Vec<U5>)
    ensures
        res@ == v@,
{
    let mut out: Vec<U5> = Vec::new();
    let mut i: usize = 0;
    while i < v.len()
        invariant
            i <= v@.len(),
            out@ =~= v@.take(i as int),
        decreases v@.len() - i,
    {
        out.push(v[i]);
        assert(v@.take(i + 1) =~= v@.take(i as int).push(v@[i as int]));
        i += 1;
    }
    assert(v@.take(v@.len() as int) =~= v@);
    out
}

/// The data of a tagged field with known semantics.
fn payload_to_base32(tf: &TaggedField) -> (res: Vec<U5>)
    requires
        field_encodable(*tf),
    ensures
        u5_values(res@) == payload_of(*tf),
        res@.len() < 1024,
{
    match tf {
        TaggedField::PaymentHash(h) => bytes_to_base32(h.0.as_slice()),
        TaggedField::Description(d) => {
            let s = d.as_str();
            let b = s.as_bytes();
            proof {
                lemma_base32_len(b@.len());
            }
            bytes_to_base32(b)
        },
        TaggedField::PayeePubKey(k) => {
            let b = k.0.serialize();
            bytes_to_base32(b.as_slice())
        },
        TaggedField::DescriptionHash(h) => bytes_to_base32(h.0.as_slice()),
        TaggedField::ExpiryTime(e) => {
            proof {
                lemma_u64_below_pow32(e.seconds);
                lemma_int_be_base32(e.seconds as nat, 13);
            }
            encode_int_be_base32(e.seconds)
        },
        TaggedField::MinFinalCltvExpiry(c) => {
            proof {
                lemma_u64_below_pow32(c.0);
                lemma_int_be_base32(c.0 as nat, 13);
            }
            encode_int_be_base32(c.0)
        },
        TaggedField::Fallback(f) => {
            let (first, rest) = match f {
                Fallback::SegWitProgram { version, program } => {
                    proof {
                        lemma_base32_len(program@.len());
                    }
                    (*version, bytes_to_base32(program.as_slice()))
                },
                Fallback::PubKeyHash(h) => (U5::from_u8_in_range(17), bytes_to_base32(h.as_slice())),
                Fallback::ScriptHash(h) => (U5::from_u8_in_range(18), bytes_to_base32(h.as_slice())),
            };
            let mut data: Vec<U5> = Vec::new();
            data.push(first);
            assert(u5_values(data@) =~= seq![first@]);
            append_u5s(&mut data, rest);
            data
        },
        TaggedField::Route(r) => {
            let hops = r.hops();
            let bytes = route_to_bytes(hops);
            proof {
                lemma_route_fits(hops@);
            }
            bytes_to_base32(bytes.as_slice())
        },
    }
}

/// A tagged field with known semantics, with its tag and length prefix.
fn tagged_field_to_base32(tf: &TaggedField) -> (res: Vec<U5>)
    requires
        field_encodable(*tf),
    ensures
        u5_values(res@) == tagged_field_base32(*tf),
{
    let payload = payload_to_base32(tf);
    write_tagged_field(tf.tag(), payload)
}

impl RawDataPart {
    /// The data part without signature, as 5-bit values.
    pub fn to_base32(&self) -> (res: Vec<U5>)
        requires
            self.encodable(),
        ensures
            u5_values(res@) == data_part_base32(*self),
    {
        let ts = encode_int_be_base32(self.timestamp);
        proof {
            reveal_with_fuel(below_pow32, 8);
            lemma_int_be_base32(self.timestamp as nat, 7);
        }
        let mut out = match try_stretch(ts, 7) {
            Some(s) => s,
            None => {
                proof {
                    assert(false);
                }
                Vec::new()
            },
        };
        let ghost head = u5_values(out@);
        let fields = &self.tagged_fields;
        let mut i: usize = 0;
        while i < fields.len()
            invariant
                i <= fields@.len(),
                fields == &self.tagged_fields,
                self.encodable(),
                u5_values(out@) == head + fields_base32(fields@.take(i as int)),
            decreases fields@.len() - i,
        {
            let encoded = match &fields[i] {
                RawTaggedField::KnownSemantics(tf) => {
                    assert(raw_field_encodable(fields@[i as int]));
                    tagged_field_to_base32(tf)
                },
                RawTaggedField::UnknownSemantics(v) => copy_u5s(v),
            };
            append_u5s(&mut out, encoded);
            assert(fields@.take(i + 1).drop_last() =~= fields@.take(i as int));
            i += 1;
        }
        assert(fields@.take(fields@.len() as int) =~= fields@);
        out
    }
}

impl RawHrp {
    /// The human readable part as ASCII bytes.
    pub fn to_bytes(&self) -> (res: Vec<u8>)
        ensures
            res@ == hrp_bytes(*self),
    {
        let mut out: Vec<u8> = Vec::new();
        out.push(108);
        out.push(110);
        match self.currency {
            Currency::Bitcoin => {
                out.push(98);
                out.push(99);
            },
            Currency::BitcoinTestnet => {
                out.push(116);
                out.push(98);
            },
        }
        let ghost with_currency = out@;
        match self.raw_amount {
            Some(a) => push_decimal(a, &mut out),
            None => {},
        }
        let ghost with_amount = out@;
        match self.si_prefix {
            Some(p) => {
                let b = match p {
                    SiPrefix::Milli => 109u8,
                    SiPrefix::Micro => 117u8,
                    SiPrefix::Nano => 110u8,
                    SiPrefix::Pico => 112u8,
                };
                out.push(b);
            },
            None => {},
        }
        assert(out@ =~= hrp_bytes(*self));
        out
    }
}

/// The data part padded with one or two zero values so that it ends at a byte boundary
/// with zero padding bits.
pub open spec fn padded(data: Seq<u8>) -> Seq<u8> {
    let overhang = (data.len() * 5) % 8;
    if overhang == 0 {
        data
    } else if overhang < 3 {
        data + seq![0u8, 0u8]
    } else {
        data.push(0u8)
    }
}

/// What the invoice hash is taken over: the human readable part, then the bit string of
/// the data part zero padded to whole bytes.
pub open spec fn hash_preimage(hrp: Seq<u8>, data: Seq<u8>) -> Seq<u8> {
    hrp + pack(data)
}

/// The invoice hash of a human readable part and a data part.
pub open spec fn hash_of_parts(hrp: Seq<u8>, data: Seq<u8>) -> Seq<u8> {
    sha256(hash_preimage(hrp, data))
}

/// Zero values appended to the data part that add no byte leave the hash unchanged.
pub proof fn lemma_hash_trailing_zeros(hrp: Seq<u8>, data: Seq<u8>, k: nat)
    requires
        ((data.len() + k) * 5 + 7) / 8 == (data.len() * 5 + 7) / 8,
    ensures
        hash_of_parts(hrp, data + Seq::new(k, |i: int| 0u8)) == hash_of_parts(hrp, data),
{
    crate::bits::lemma_pack_zero_extension(data, Seq::new(k, |i: int| 0u8));
}

/// One zero value added when 1 or 2 bits are left over, two when 3 to 7 are, end the data
/// at the byte where its packing ends.
proof fn lemma_padded_count(n: nat)
    ensures
        ({
            let o = (n * 5) % 8;
            let m: nat = if o == 0 {
                n
            } else if o < 3 {
                n + 2
            } else {
                n + 1
            };
            m * 5 / 8 == (n * 5 + 7) / 8
        }),
{
    let o = (n * 5) % 8;
    let q = (n * 5) / 8;
    assert(n * 5 == 8 * q + o);
}

/// Regrouping the padded data part into whole bytes gives the packed bit string of the data
/// part: the padding adds only zero bits and ends at the byte where the packing ends.
pub proof fn lemma_padded_packs(data: Seq<u8>)
    ensures
        regroup(padded(data), 5, 8, padded(data).len() * 5 / 8) == pack(data),
{
    let n = data.len();
    let o = (n * 5) % 8;
    lemma_padded_count(n);
    let ext: Seq<u8> = if o == 0 {
        seq![]
    } else if o < 3 {
        seq![0u8, 0u8]
    } else {
        seq![0u8]
    };
    assert(padded(data) =~= data + ext);
    lemma_zero_extension(data, ext, 5);
    let c = (n * 5 + 7) / 8;
    assert forall|i: int| 0 <= i < c implies regroup(padded(data), 5, 8, c)[i] == pack(data)[i] by {
        lemma_same_bits_same_groups(padded(data), 5, data, 5, i * 8, 8);
    }
    assert(regroup(padded(data), 5, 8, c) =~= pack(data));
}

/// Padding leaves fewer than five bits over, and those bits are zero: the padded data part
/// always regroups into bytes without a padding error.
pub proof fn lemma_padded(data: Seq<u8>)
    requires
        all_five_bit(data),
    ensures
        all_five_bit(padded(data)),
        (padded(data).len() * 5) % 8 < 5,
        (padded(data).len() * 5) % 8 == 0 || padded(data).last() == 0,
{
    let n = data.len();
    let o = (n * 5) % 8;
    lemma_add_mod_noop_right(5, (n * 5) as int, 8);
    lemma_add_mod_noop_right(10, (n * 5) as int, 8);
    assert(0 <= o < 8);
    if o == 0 {
    } else if o < 3 {
        assert((padded(data).len() * 5) == n * 5 + 10);
    } else {
        assert((padded(data).len() * 5) == n * 5 + 5);
    }
}

impl RawInvoice {
    /// The hash over the human readable part and the data part without signature: the
    /// data part is padded with zero values to a byte boundary and regrouped into bytes.
    fn hash_from_parts(hrp_bytes: &[u8], data_without_signature: &[U5]) -> (res: [u8; 32])
        ensures
            res@ == hash_of_parts(hrp_bytes@, u5_values(data_without_signature@)),
    {
        let mut data_part: Vec<u8> = Vec::new();
        let mut i: usize = 0;
        while i < data_without_signature.len()
            invariant
                i <= data_without_signature@.len(),
                data_part@ =~= u5_values(data_without_signature@).take(i as int),
                all_five_bit(data_part@),
            decreases data_without_signature@.len() - i,
        {
            data_part.push(data_without_signature[i].to_u8());
            assert(u5_values(data_without_signature@).take(i + 1) =~= u5_values(
                data_without_signature@,
            ).take(i as int).push(data_without_signature@[i as int]@));
            i += 1;
        }
        let ghost values = u5_values(data_without_signature@);
        assert(values.take(values.len() as int) =~= values);
        let len = data_part.len();
        let overhang = ((len % 8) * 5) % 8;
        proof {
            lemma_mul_mod_noop_left(len as int, 5, 8);
        }
        if overhang > 0 {
            data_part.push(0);
            if overhang < 3 {
                data_part.push(0);
            }
        }
        assert(data_part@ =~= padded(values));
        proof {
            lemma_padded(values);
            lemma_padded_packs(values);
        }
        let decoded = match convert_bits_vec(data_part.as_slice(), 5, 8, false) {
            Some(v) => v,
            None => {
                proof {
                    assert(false);
                }
                Vec::new()
            },
        };
        let mut preimage: Vec<u8> = Vec::new();
        push_all(&mut preimage, hrp_bytes);
        push_all(&mut preimage, decoded.as_slice());
        assert(preimage@ =~= hash_preimage(hrp_bytes@, values));
        sha256_digest(preimage.as_slice())
    }

    /// The hash of the invoice that its signature signs: SHA-256 over the bytes of the human
    /// readable part followed by the data part (without signature) packed into whole bytes.
    pub fn hash(&self) -> (res: [u8; 32])
        requires
            self.data.encodable(),
        ensures
            res@ == hash_of_parts(hrp_bytes(self.hrp), data_part_base32(self.data)),
    {
        let hrp = self.hrp.to_bytes();
        let data = self.data.to_base32();
        RawInvoice::hash_from_parts(hrp.as_slice(), data.as_slice())
    }
}

} // verus!
