//! Bit strings made of fixed-width values, and their regrouping into values of
//! another width: how bytes become 5-bit values and back.

use vstd::arithmetic::div_mod::lemma_div_denominator;
use vstd::arithmetic::power2::{lemma2_to64, lemma_pow2_pos, lemma_pow2_unfold, pow2};
use vstd::prelude::*;

verus! {

/// Bit `k` of the bit string formed by the `width`-bit big-endian forms of the values of
/// `s`, one after the other (bit 0 is the most significant bit of `s[0]`); zero past the end.
pub open spec fn bit_at(s: Seq<u8>, width: nat, k: int) -> nat {
    if width > 0 && 0 <= k < s.len() * width {
        ((s[k / (width as int)] as nat) / pow2((width - 1 - k % (width as int)) as nat)) % 2
    } else {
        0
    }
}

/// The number formed by the `len` bits of that bit string starting at bit `start`.
pub open spec fn bit_group(s: Seq<u8>, width: nat, start: int, len: nat) -> nat
    decreases len,
{
    if len == 0 {
        0
    } else {
        bit_group(s, width, start, (len - 1) as nat) * 2 + bit_at(s, width, start + len - 1)
    }
}

/// The bit string of `s` (values of `from` bits) cut into `count` values of `to` bits.
pub open spec fn regroup(s: Seq<u8>, from: nat, to: nat, count: nat) -> Seq<u8> {
    Seq::new(count, |i: int| bit_group(s, from, i * to, to) as u8)
}

/// The bit string of 5-bit values, zero padded to whole bytes.
pub open spec fn pack(data: Seq<u8>) -> Seq<u8> {
    regroup(data, 5, 8, (data.len() * 5 + 7) / 8)
}

/// Two bit strings that agree bit by bit give the same groups.
pub proof fn lemma_same_bits_same_groups(a: Seq<u8>, wa: nat, b: Seq<u8>, wb: nat, start: int, len: nat)
    requires
        forall|k: int| bit_at(a, wa, k) == bit_at(b, wb, k),
    ensures
        bit_group(a, wa, start, len) == bit_group(b, wb, start, len),
    decreases len,
{
    if len > 0 {
        lemma_same_bits_same_groups(a, wa, b, wb, start, (len - 1) as nat);
        assert(bit_at(a, wa, start + len - 1) == bit_at(b, wb, start + len - 1));
    }
}

/// Appending zero values adds only zero bits: the bit string is unchanged, bit by bit.
pub proof fn lemma_zero_extension(data: Seq<u8>, ext: Seq<u8>, width: nat)
    requires
        forall|i: int| 0 <= i < ext.len() ==> #[trigger] ext[i] == 0,
    ensures
        forall|k: int| bit_at(data + ext, width, k) == bit_at(data, width, k),
{
    assert forall|k: int| bit_at(data + ext, width, k) == bit_at(data, width, k) by {
        if width > 0 && 0 <= k < (data + ext).len() * width {
            let w = width as int;
            let idx = k / w;
            assert(0 <= idx < data.len() + ext.len()) by (nonlinear_arith)
                requires
                    w > 0,
                    0 <= k < (data.len() + ext.len()) * w,
                    idx == k / w,
            ;
            if k < data.len() * width {
                assert(idx < data.len()) by (nonlinear_arith)
                    requires
                        w > 0,
                        0 <= k < data.len() * w,
                        idx == k / w,
                ;
                assert((data + ext)[idx] == data[idx]);
                assert(k < (data + ext).len() * width);
            } else {
                assert(idx >= data.len()) by (nonlinear_arith)
                    requires
                        w > 0,
                        k >= data.len() * w,
                        idx == k / w,
                ;
                assert((data + ext)[idx] == ext[idx - data.len()]);
                let p = pow2((width - 1 - k % w) as nat);
                lemma_pow2_pos((width - 1 - k % w) as nat);
                assert((0nat / p) % 2 == 0) by (nonlinear_arith)
                    requires
                        p > 0,
                ;
                assert(bit_at(data + ext, width, k) == 0);
                assert(bit_at(data, width, k) == 0);
            }
        } else {
            assert(data.len() * width <= (data + ext).len() * width) by (nonlinear_arith)
                requires
                    data.len() <= (data + ext).len(),
            ;
        }
    }
}

/// Zero values appended to 5-bit data change nothing of its packing as long as they do
/// not add a byte.
pub proof fn lemma_pack_zero_extension(data: Seq<u8>, ext: Seq<u8>)
    requires
        forall|i: int| 0 <= i < ext.len() ==> #[trigger] ext[i] == 0,
        ((data.len() + ext.len()) * 5 + 7) / 8 == (data.len() * 5 + 7) / 8,
    ensures
        pack(data + ext) == pack(data),
{
    lemma_zero_extension(data, ext, 5);
    assert forall|i: int| 0 <= i < pack(data).len() implies pack(data + ext)[i] == pack(data)[i] by {
        lemma_same_bits_same_groups(data + ext, 5, data, 5, i * 8, 8);
    }
    assert(pack(data + ext) =~= pack(data));
}

/// A group of `len` bits is below `2^len`.
pub proof fn lemma_group_bound(s: Seq<u8>, width: nat, start: int, len: nat)
    ensures
        bit_group(s, width, start, len) < pow2(len),
    decreases len,
{
    lemma2_to64();
    if len > 0 {
        lemma_group_bound(s, width, start, (len - 1) as nat);
        lemma_pow2_unfold(len);
    }
}

/// Bit `j` of a group of `len` bits, counted from the most significant, is bit `start + j`
/// of the bit string.
pub proof fn lemma_group_bits(s: Seq<u8>, width: nat, start: int, len: nat, j: int)
    requires
        0 <= j < len,
    ensures
        (bit_group(s, width, start, len) / pow2((len - 1 - j) as nat)) % 2 == bit_at(
            s,
            width,
            start + j,
        ),
    decreases len,
{
    let g = bit_group(s, width, start, (len - 1) as nat);
    let b = bit_at(s, width, start + len - 1);
    assert(b < 2);
    lemma2_to64();
    let big = g * 2 + b;
    assert(bit_group(s, width, start, len) == big);
    if j == len - 1 {
        assert((len - 1 - j) as nat == 0);
        assert(pow2(0) == 1);
        assert(big / 1 == big);
        assert(big % 2 == b);
    } else {
        lemma_group_bits(s, width, start, (len - 1) as nat, j);
        let e = (len - 2 - j) as nat;
        let p = pow2(e);
        lemma_pow2_pos(e);
        lemma_pow2_unfold(e + 1);
        assert((len - 1 - j) as nat == e + 1);
        assert((len - 1 - 1 - j) as nat == e);
        assert(pow2(e + 1) == 2 * p);
        lemma_div_denominator(big as int, 2, p as int);
        assert(big / 2 == g);
        assert((big / 2) / p == big / (2 * p));
        assert(big / pow2((len - 1 - j) as nat) == g / p);
    }
}

/// The first `len` bits of byte `i` of a byte string form the byte shifted right by
/// `8 - len`; all eight form the byte.
pub proof fn lemma_byte_from_bits(s: Seq<u8>, i: int, len: nat)
    requires
        0 <= i < s.len(),
        len <= 8,
    ensures
        bit_group(s, 8, 8 * i, len) == (s[i] as nat) / pow2((8 - len) as nat),
    decreases len,
{
    lemma2_to64();
    let v = s[i] as nat;
    if len > 0 {
        lemma_byte_from_bits(s, i, (len - 1) as nat);
        let k = 8 * i + len - 1;
        assert(k / 8 == i && k % 8 == len - 1) by (nonlinear_arith)
            requires
                k == 8 * i + len - 1,
                1 <= len <= 8,
                i >= 0,
        ;
        assert(0 <= k < s.len() * 8) by (nonlinear_arith)
            requires
                k == 8 * i + len - 1,
                1 <= len <= 8,
                0 <= i < s.len(),
        ;
        let p = pow2((8 - len) as nat);
        lemma_pow2_pos((8 - len) as nat);
        lemma_pow2_unfold((9 - len) as nat);
        assert(pow2((9 - len) as nat) == 2 * p);
        lemma_div_denominator(v as int, p as int, 2);
        let y = v / p;
        assert(v / pow2((9 - len) as nat) == y / 2);
        assert(bit_group(s, 8, 8 * i, (len - 1) as nat) == y / 2);
        assert((8 - 1 - k % 8) as nat == (8 - len) as nat);
        assert(bit_at(s, 8, k) == (s[k / 8] as nat / pow2((8 - 1 - k % 8) as nat)) % 2);
        assert(bit_at(s, 8, k) == y % 2);
        assert(8 * i + len - 1 == k);
        assert(bit_group(s, 8, 8 * i, len) == (y / 2) * 2 + y % 2);
        assert((y / 2) * 2 + y % 2 == y);
    } else {
        assert(pow2(8) == 256);
        assert(v < 256);
        assert(v / 256 == 0);
    }
}

} // verus!
