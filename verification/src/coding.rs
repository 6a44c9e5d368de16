//! Variable-length integer coding used by the sample index.
//!
//! Signed deltas are first mapped to unsigned integers by the zigzag map,
//! then written as little-endian base-128 digits, one digit per byte, each
//! byte but the last carrying a continuation flag in its high bit.

use vstd::prelude::*;

verus! {

/// The zigzag image of a signed 32-bit integer: a non-negative `n` maps to
/// `2n`, a negative `n` to `-2n - 1`.
pub open spec fn spec_zigzag32(i: i32) -> u32 {
    if i >= 0 {
        (2 * i) as u32
    } else {
        (-2 * i - 1) as u32
    }
}

/// The inverse of [`spec_zigzag32`]: an even `u` maps to `u / 2`, an odd `u`
/// to `-(u / 2) - 1`.
pub open spec fn spec_unzigzag32(u: u32) -> i32 {
    if u % 2 == 0 {
        (u / 2) as i32
    } else {
        (-(u / 2) - 1) as i32
    }
}

/// Zigzag-encodes a signed integer, moving the sign into the low bit.
pub fn zigzag32(i: i32) -> (r: u32)
    ensures
        r == spec_zigzag32(i),
{
    let r = ((i << 1) as u32) ^ ((i >> 31) as u32);
    assert(r == (if i >= 0 {
        (2 * i) as u32
    } else {
        (-2 * i - 1) as u32
    })) by (bit_vector)
        requires
            r == ((i << 1) as u32) ^ ((i >> 31) as u32),
    ;
    r
}

/// Zigzag-decodes an unsigned integer to the signed integer it stands for.
pub fn unzigzag32(i: u32) -> (r: i32)
    ensures
        r == spec_unzigzag32(i),
{
    let half = (i >> 1) as i32;
    let low = (i & 1) as i32;
    assert(0 <= half && 0 <= low <= 1 && half == i / 2 && low == i % 2) by (bit_vector)
        requires
            half == (i >> 1) as i32,
            low == (i & 1) as i32,
    ;
    let mask = -low;
    let r = half ^ mask;
    assert(r == (if low == 0 {
        half
    } else {
        (-half - 1) as i32
    })) by (bit_vector)
        requires
            r == half ^ mask,
            0 <= half,
            mask == 0 - low,
            0 <= low <= 1,
    ;
    r
}

/// Zigzag decoding undoes zigzag encoding.
pub proof fn lemma_zigzag_round_trip(i: i32)
    ensures
        spec_unzigzag32(spec_zigzag32(i)) == i,
{
}

/// Zigzag encoding undoes zigzag decoding: the two maps are bijections
/// between `i32` and `u32`.
pub proof fn lemma_unzigzag_round_trip(u: u32)
    ensures
        spec_zigzag32(spec_unzigzag32(u)) == u,
{
}

/// The bytes that stand for `v`: its base-128 digits from the least
/// significant, each but the last with the high bit set.
pub open spec fn spec_varint32(v: u32) -> Seq<u8>
    decreases v,
{
    if v < 128 {
        seq![v as u8]
    } else {
        seq![(v % 128 + 128) as u8] + spec_varint32(v / 128)
    }
}

/// The weight of the digit held by the `k`-th byte of a varint: `128^k`.
pub open spec fn varint_scale(k: nat) -> int {
    if k == 0 {
        1
    } else if k == 1 {
        128
    } else if k == 2 {
        16384
    } else if k == 3 {
        2097152
    } else {
        268435456
    }
}

/// Decoding of a varint of which `k` bytes have been read, giving `acc`,
/// and whose next byte is `data[i]`.
///
/// At most five bytes are read, and the fifth may hold only the four bits
/// that are left of a 32-bit value. `None` where the bytes end before the
/// varint does, or where the value does not fit.
pub open spec fn spec_decode_varint32_from(data: Seq<u8>, i: int, k: nat, acc: int) -> Option<
    (u32, int),
>
    decreases 5 - k,
{
    if k >= 5 || i < 0 || i >= data.len() {
        None
    } else {
        let b = data[i];
        if k == 4 && b >= 16 {
            None
        } else {
            let acc2 = acc + (b % 128) * varint_scale(k);
            if b < 128 {
                Some((acc2 as u32, i + 1))
            } else {
                spec_decode_varint32_from(data, i + 1, k + 1, acc2)
            }
        }
    }
}

/// The varint that starts at byte `i` of `data`, with the position just
/// behind it.
pub open spec fn spec_decode_varint32(data: Seq<u8>, i: int) -> Option<(u32, int)> {
    spec_decode_varint32_from(data, i, 0, 0)
}

proof fn lemma_low_digit(out: u32, b: u8, shift: u32)
    by (bit_vector)
    requires
        shift == 0 || shift == 7 || shift == 14 || shift == 21 || shift == 28,
        out < (1u32 << shift),
        shift == 28 ==> b < 16,
    ensures
        (out | (((b & 0x7f) as u32) << shift)) == out + ((b % 128) as u32) * (1u32 << shift),
        out + ((b % 128) as u32) * (1u32 << shift) <= 0xffff_ffff,
        shift < 28 ==> (out | (((b & 0x7f) as u32) << shift)) < (1u32 << ((shift + 7) as u32)),
{
}

proof fn lemma_scale_is_shift(k: nat)
    requires
        k <= 4,
    ensures
        varint_scale(k) == (1u32 << ((7 * k) as u32)),
{
    assert(1u32 << 0u32 == 1) by (bit_vector);
    assert(1u32 << 7u32 == 128) by (bit_vector);
    assert(1u32 << 14u32 == 16384) by (bit_vector);
    assert(1u32 << 21u32 == 2097152) by (bit_vector);
    assert(1u32 << 28u32 == 268435456) by (bit_vector);
}

/// Decodes the varint that starts at byte `i` of `data`.
///
/// Returns the value and the position of the byte behind it, or an error
/// where no well-formed 32-bit varint starts at `i`.
pub fn decode_varint32(data: &[u8], i: usize) -> (r: Result<(u32, usize), ()>)
    ensures
        match spec_decode_varint32(data@, i as int) {
            Some((v, j)) => r == Ok::<(u32, usize), ()>((v, j as usize)) && i < j <= data@.len(),
            None => r is Err,
        },
{
    let l = data.len();
    let mut out: u32 = 0;
    let mut shift: u32 = 0;
    let mut pos: usize = i;
    let ghost mut k: nat = 0;
    loop
        invariant
            l == data@.len(),
            k <= 4,
            shift == 7 * k,
            out < varint_scale(k),
            i <= pos,
            pos == i + k,
            spec_decode_varint32_from(data@, pos as int, k, out as int) == spec_decode_varint32(
                data@,
                i as int,
            ),
        decreases 5 - k,
    {
        if pos >= l {
            return Err(());
        }
        let b = data[pos];
        assert(((b & 0xf0) != 0) == (b >= 16)) by (bit_vector);
        assert(((b & 0x80) == 0) == (b < 128)) by (bit_vector);
        if shift == 28 && (b & 0xf0) != 0 {
            return Err(());
        }
        proof {
            lemma_scale_is_shift(k);
            lemma_low_digit(out, b, shift);
            if k < 4 {
                lemma_scale_is_shift(k + 1);
            }
        }
        out = out | (((b & 0x7f) as u32) << shift);
        pos = pos + 1;
        if (b & 0x80) == 0 {
            return Ok((out, pos));
        }
        shift = shift + 7;
        proof {
            k = k + 1;
        }
    }
}

/// Appends the varint that stands for `i` to `data`.
pub fn append_varint32(i: u32, data: &mut Vec<u8>)
    ensures
        final(data)@ == old(data)@ + spec_varint32(i),
{
    let mut v: u32 = i;
    while v >= 128
        invariant
            data@ + spec_varint32(v) == old(data)@ + spec_varint32(i),
        decreases v,
    {
        let b = ((v & 0x7f) | 0x80) as u8;
        assert(b == (v % 128 + 128) as u8 && (v >> 7) == v / 128) by (bit_vector)
            requires
                b == ((v & 0x7f) | 0x80) as u8,
        ;
        proof {
            let ghost before = data@;
            assert(before + spec_varint32(v) == (before + seq![b]) + spec_varint32(v / 128));
        }
        data.push(b);
        v = v >> 7;
    }
    proof {
        assert(data@ + spec_varint32(v) == data@.push(v as u8));
    }
    data.push(v as u8);
}

/// A varint that decodes ends behind where it starts, and within the bytes.
pub proof fn lemma_decode_advances(data: Seq<u8>, i: int)
    ensures
        match spec_decode_varint32(data, i) {
            Some((v, j)) => 0 <= i < j <= data.len() && j <= i + 5,
            None => true,
        },
{
    lemma_decode_advances_from(data, i, 0, 0);
}

proof fn lemma_decode_advances_from(data: Seq<u8>, i: int, k: nat, acc: int)
    ensures
        match spec_decode_varint32_from(data, i, k, acc) {
            Some((v, j)) => 0 <= i < j <= data.len() && j + k <= i + 5,
            None => true,
        },
    decreases 5 - k,
{
    if k < 5 && 0 <= i < data.len() {
        let b = data[i];
        if !(k == 4 && b >= 16) && b >= 128 {
            lemma_decode_advances_from(data, i + 1, k + 1, acc + (b % 128) * varint_scale(k));
        }
    }
}

/// A varint takes between one and five bytes.
pub proof fn lemma_varint_len(v: u32)
    ensures
        1 <= spec_varint32(v).len() <= 5,
        v < 128 ==> spec_varint32(v).len() == 1,
    decreases v,
{
    if v >= 128 {
        lemma_varint_len_bounded(v, 0);
    }
}

proof fn lemma_varint_len_bounded(v: u32, k: nat)
    requires
        k <= 4,
        v * varint_scale(k) <= 0xffff_ffff,
    ensures
        1 <= spec_varint32(v).len() <= 5 - k,
    decreases v,
{
    if v >= 128 {
        lemma_varint_len_bounded(v / 128, k + 1);
    }
}

proof fn lemma_varint_round_trip_from(data: Seq<u8>, i: int, k: nat, acc: int, w: u32)
    requires
        k <= 4,
        0 <= acc < varint_scale(k),
        acc + w * varint_scale(k) <= 0xffff_ffff,
        0 <= i,
        i + spec_varint32(w).len() <= data.len(),
        data.subrange(i, i + spec_varint32(w).len()) == spec_varint32(w),
    ensures
        spec_decode_varint32_from(data, i, k, acc) == Some(
            ((acc + w * varint_scale(k)) as u32, i + spec_varint32(w).len()),
        ),
    decreases w,
{
    let enc = spec_varint32(w);
    let n = enc.len() as int;
    assert(data[i] == data.subrange(i, i + n)[0]);
    let s = varint_scale(k);
    let s7 = varint_scale(k + 1);
    assert(w * s == (w / 128) * (128 * s) + (w % 128) * s) by (nonlinear_arith);
    assert(k < 4 ==> s7 == 128 * s);
    assert(k == 4 ==> w < 16) by (nonlinear_arith)
        requires
            k == 4 ==> s == 268435456,
            w * s <= 0xffff_ffff,
    ;
    assert((w % 128) * s + acc < 128 * s) by (nonlinear_arith)
        requires
            0 <= acc < s,
            0 <= w % 128 < 128,
    ;
    assert(0 <= (w % 128) * s) by (nonlinear_arith)
        requires
            0 < s,
            0 <= w % 128,
    ;
    if w < 128 {
        assert(enc[0] == w as u8);
        assert(w % 128 == w);
    } else {
        let rest = spec_varint32(w / 128);
        assert(enc[0] == (w % 128 + 128) as u8);
        assert(enc.len() == 1 + rest.len());
        assert(data.subrange(i + 1, i + 1 + rest.len()) == rest) by {
            assert forall|j: int| 0 <= j < rest.len() implies data.subrange(
                i + 1,
                i + 1 + rest.len(),
            )[j] == rest[j] by {
                assert(data[i + 1 + j] == data.subrange(i, i + n)[1 + j]);
                assert(enc[1 + j] == rest[j]);
            }
        }
        let acc2 = acc + (w % 128) * varint_scale(k);
        lemma_varint_round_trip_from(data, i + 1, k + 1, acc2, w / 128);
    }
}

/// Decoding undoes encoding: where the bytes of `data` from `i` on begin
/// with the varint of `v`, decoding at `i` gives `v` and the position
/// behind those bytes.
pub proof fn lemma_varint_round_trip(data: Seq<u8>, i: int, v: u32)
    requires
        0 <= i,
        i + spec_varint32(v).len() <= data.len(),
        data.subrange(i, i + spec_varint32(v).len()) == spec_varint32(v),
    ensures
        spec_decode_varint32(data, i) == Some((v, i + spec_varint32(v).len())),
{
    lemma_varint_round_trip_from(data, i, 0, 0, v);
}

} // verus!
