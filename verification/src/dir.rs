//! The names of sample files: each file is named by the 16 lowercase
//! hexadecimal digits of its recording's id.

use crate::db::CompositeId;
use vstd::prelude::*;

verus! {

/// The value of a lowercase hexadecimal digit, `None` of any other byte.
pub open spec fn spec_hex_digit(b: u8) -> Option<int> {
    if 0x30 <= b <= 0x39 {
        Some(b - 0x30)
    } else if 0x61 <= b <= 0x66 {
        Some(b - 0x61 + 10)
    } else {
        None
    }
}

/// The number that the hexadecimal digits of `name` write, `None` where a
/// byte of `name` is no lowercase hexadecimal digit.
pub open spec fn spec_hex_value(name: Seq<u8>) -> Option<int>
    decreases name.len(),
{
    if name.len() == 0 {
        Some(0)
    } else {
        match (spec_hex_value(name.drop_last()), spec_hex_digit(name.last())) {
            (Some(v), Some(d)) => Some(16 * v + d),
            _ => None,
        }
    }
}

/// The id that a file name stands for: the name is 16 lowercase
/// hexadecimal digits, which write the id as an unsigned 64-bit number.
pub open spec fn spec_parse_id(name: Seq<u8>) -> Option<CompositeId> {
    if name.len() != 16 {
        None
    } else {
        match spec_hex_value(name) {
            Some(v) => Some(CompositeId((v as u64) as i64)),
            None => None,
        }
    }
}

proof fn lemma_hex_step(v: u64, d: u64, i: u64)
    by (bit_vector)
    requires
        i < 16,
        v < (1u64 << (4 * i)),
        d < 16,
    ensures
        ((v << 4) | d) == 16 * v + d,
        i < 15 ==> ((v << 4) | d) < (1u64 << (4 * (i + 1))),
{
}

/// Reads the id of a recording from the name of its sample file.
pub fn parse_id(name: &[u8]) -> (r: Result<CompositeId, ()>)
    ensures
        match spec_parse_id(name@) {
            Some(id) => r == Ok::<CompositeId, ()>(id),
            None => r is Err,
        },
{
    if name.len() != 16 {
        return Err(());
    }
    let mut v: u64 = 0;
    let mut i: u64 = 0;
    assert((1u64 << (4 * 0u64)) == 1) by (bit_vector);
    assert(name@.take(0) =~= Seq::<u8>::empty());
    while i < 16
        invariant
            name@.len() == 16,
            i <= 16,
            i < 16 ==> v < (1u64 << (4 * i)),
            spec_hex_value(name@.take(i as int)) == Some(v as int),
        decreases 16 - i,
    {
        let b = name[i as usize];
        proof {
            assert(name@.take(i + 1).drop_last() =~= name@.take(i as int));
        }
        let d: u64 = if 0x30 <= b && b <= 0x39 {
            (b - 0x30) as u64
        } else if 0x61 <= b && b <= 0x66 {
            (b - 0x61 + 10) as u64
        } else {
            proof {
                lemma_hex_rejects(name@, i + 1);
            }
            return Err(());
        };
        proof {
            lemma_hex_step(v, d, i);
        }
        v = (v << 4) | d;
        i = i + 1;
    }
    assert(name@.take(16) =~= name@);
    Ok(CompositeId(v as i64))
}

/// A name with a bad byte among its first `k` has no value.
proof fn lemma_hex_rejects(name: Seq<u8>, k: int)
    requires
        0 <= k <= name.len(),
        spec_hex_value(name.take(k)) is None,
    ensures
        spec_hex_value(name) is None,
    decreases name.len() - k,
{
    if k < name.len() {
        assert(name.take(k + 1).drop_last() =~= name.take(k));
        lemma_hex_rejects(name, k + 1);
    } else {
        assert(name.take(k) =~= name);
    }
}


proof fn lemma_nibble(v: u64, shift: u64)
    by (bit_vector)
    requires
        shift <= 60,
    ensures
        ((v >> shift) & 0xf) < 16,
        (v >> shift) == 16 * (if shift == 60 {
            0
        } else {
            v >> ((shift + 4) as u64)
        }) + ((v >> shift) & 0xf),
{
}

/// The name of the sample file of the recording `id`: the id as an unsigned
/// 64-bit number, in 16 lowercase hexadecimal digits.
pub fn file_name(id: CompositeId) -> (name: Vec<u8>)
    ensures
        name@.len() == 16,
        spec_parse_id(name@) == Some(id),
{
    let raw = id.0;
    let v = raw as u64;
    let mut name: Vec<u8> = Vec::new();
    let mut shift: u64 = 64;
    while shift > 0
        invariant
            shift <= 64,
            shift % 4 == 0,
            4 * name@.len() == 64 - shift,
            spec_hex_value(name@) == Some(
                if shift == 64 {
                    0int
                } else {
                    (v >> shift) as int
                },
            ),
        decreases shift,
    {
        shift = shift - 4;
        let nibble = (v >> shift) & 0xf;
        proof {
            lemma_nibble(v, shift);
        }
        let b: u8 = if nibble < 10 {
            0x30 + nibble as u8
        } else {
            0x61 + (nibble - 10) as u8
        };
        let ghost before = name@;
        name.push(b);
        proof {
            assert(name@.drop_last() =~= before);
            assert(spec_hex_digit(b) == Some(nibble as int));
        }
    }
    proof {
        assert(v >> 0u64 == v) by (bit_vector);
        assert((v as i64) == raw) by (bit_vector)
            requires
                v == raw as u64,
        ;
    }
    name
}

/// A file name stands for one id only, and an id has one file name only:
/// two names that stand for the same id are the same name.
pub proof fn lemma_file_name_unique(a: Seq<u8>, b: Seq<u8>)
    requires
        spec_parse_id(a) is Some,
        spec_parse_id(a) == spec_parse_id(b),
    ensures
        a == b,
{
    lemma_hex_value_bound(a);
    lemma_hex_value_bound(b);
    let va = spec_hex_value(a)->Some_0;
    let vb = spec_hex_value(b)->Some_0;
    assert(pow16(16) == 0x1_0000_0000_0000_0000) by {
        reveal_with_fuel(pow16, 17);
    }
    assert(va == vb) by {
        let x = va as u64;
        let y = vb as u64;
        assert((x as i64) == (y as i64) ==> x == y) by (bit_vector);
    }
    lemma_hex_value_injective(a, b);
}

/// 16 to the power of `n`.
pub open spec fn pow16(n: nat) -> int
    decreases n,
{
    if n == 0 {
        1
    } else {
        16 * pow16((n - 1) as nat)
    }
}

proof fn lemma_hex_value_bound(name: Seq<u8>)
    requires
        spec_hex_value(name) is Some,
    ensures
        0 <= spec_hex_value(name)->Some_0 < pow16(name.len()),
    decreases name.len(),
{
    if name.len() > 0 {
        lemma_hex_value_bound(name.drop_last());
    }
}

proof fn lemma_hex_value_injective(a: Seq<u8>, b: Seq<u8>)
    requires
        a.len() == b.len(),
        spec_hex_value(a) is Some,
        spec_hex_value(a) == spec_hex_value(b),
    ensures
        a == b,
    decreases a.len(),
{
    if a.len() > 0 {
        lemma_hex_value_injective(a.drop_last(), b.drop_last());
        assert(a =~= a.drop_last().push(a.last()));
        assert(b =~= b.drop_last().push(b.last()));
    } else {
        assert(a =~= b);
    }
}

} // verus!
