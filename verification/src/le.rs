//! Little-endian integers in byte sequences.

use vstd::prelude::*;

verus! {

/// The number that `bytes` stand for, least significant byte first.
pub open spec fn le_value(bytes: Seq<u8>) -> nat
    decreases bytes.len(),
{
    if bytes.len() == 0 {
        0
    } else {
        bytes[0] as nat + 256 * le_value(bytes.skip(1))
    }
}

/// The `width` least significant bytes of `n`, least significant first.
pub open spec fn le_bytes(n: nat, width: nat) -> Seq<u8>
    decreases width,
{
    if width == 0 {
        Seq::empty()
    } else {
        seq![(n % 256) as u8] + le_bytes(n / 256, (width - 1) as nat)
    }
}

/// The unsigned 16-bit integer in the two bytes at `offset`.
pub open spec fn u16_at(data: Seq<u8>, offset: int) -> u16 {
    le_value(data.subrange(offset, offset + 2)) as u16
}

/// The two's complement 64-bit integer in the eight bytes at `offset`.
pub open spec fn i64_at(data: Seq<u8>, offset: int) -> i64 {
    let value = le_value(data.subrange(offset, offset + 8));
    if value < 0x8000_0000_0000_0000 {
        value as i64
    } else {
        (value - 0x1_0000_0000_0000_0000) as i64
    }
}

/// The unsigned number with the same 64 bits as `value`.
pub open spec fn i64_bits(value: i64) -> nat {
    if value >= 0 {
        value as nat
    } else {
        (value + 0x1_0000_0000_0000_0000) as nat
    }
}

/// The bytes of 16-bit units, each unit least significant byte first.
pub open spec fn unit_bytes(units: Seq<u16>) -> Seq<u8>
    decreases units.len(),
{
    if units.len() == 0 {
        Seq::empty()
    } else {
        le_bytes(units[0] as nat, 2) + unit_bytes(units.skip(1))
    }
}

/// Two bytes, read as a sum.
pub proof fn lemma_le_value_2(bytes: Seq<u8>)
    requires
        bytes.len() == 2,
    ensures
        le_value(bytes) == bytes[0] + 256 * bytes[1],
{
    reveal_with_fuel(le_value, 3);
}

/// Eight bytes, read as a sum.
pub proof fn lemma_le_value_8(bytes: Seq<u8>)
    requires
        bytes.len() == 8,
    ensures
        le_value(bytes) == bytes[0] + 0x100 * bytes[1] + 0x1_0000 * bytes[2] + 0x100_0000 * bytes[3]
            + 0x1_0000_0000 * bytes[4] + 0x100_0000_0000 * bytes[5] + 0x1_0000_0000_0000 * bytes[6]
            + 0x100_0000_0000_0000 * bytes[7],
{
    reveal_with_fuel(le_value, 9);
}

/// `u16_at` as a sum of its two bytes.
pub proof fn lemma_u16_at(data: Seq<u8>, offset: int)
    requires
        0 <= offset,
        offset + 2 <= data.len(),
    ensures
        u16_at(data, offset) == data[offset] + 256 * data[offset + 1],
{
    lemma_le_value_2(data.subrange(offset, offset + 2));
}

/// The 64-bit integer at an offset is the two's complement reading of the eight bytes there: their
/// sum, each byte weighted by its power of 256, less 2^64 where the highest bit is set.
pub proof fn law_i64_is_the_reading_of_its_bytes(data: Seq<u8>, offset: int)
    requires
        0 <= offset,
        offset + 8 <= data.len(),
    ensures
        i64_at(data, offset) == data[offset] + 0x100 * data[offset + 1] + 0x1_0000 * data[offset + 2]
            + 0x100_0000 * data[offset + 3] + 0x1_0000_0000 * data[offset + 4] + 0x100_0000_0000
            * data[offset + 5] + 0x1_0000_0000_0000 * data[offset + 6] + 0x100_0000_0000_0000
            * data[offset + 7] - (if data[offset + 7] >= 128 {
            0x1_0000_0000_0000_0000int
        } else {
            0
        }),
{
    lemma_le_value_8(data.subrange(offset, offset + 8));
}

/// The bits of a number that is not negative are the number itself, and those of a negative number
/// are what it lacks to 2^64.
pub proof fn law_bits_of_signed_numbers(value: i64)
    ensures
        value >= 0 ==> i64_bits(value) == value,
        value < 0 ==> i64_bits(value) - value == 0x1_0000_0000_0000_0000,
{
}

/// `le_bytes` has the width asked for.
pub proof fn lemma_le_bytes_len(n: nat, width: nat)
    ensures
        le_bytes(n, width).len() == width,
    decreases width,
{
    if width > 0 {
        lemma_le_bytes_len(n / 256, (width - 1) as nat);
    }
}

/// Two bytes written for a 16-bit number.
pub proof fn lemma_le_bytes_2(n: nat)
    requires
        n < 0x1_0000,
    ensures
        le_bytes(n, 2) == seq![(n % 256) as u8, (n / 256) as u8],
{
    reveal_with_fuel(le_bytes, 3);
    assert(le_bytes(n, 2) =~= seq![(n % 256) as u8, (n / 256) as u8]);
}

/// A 16-bit number reads back as it was written.
pub proof fn law_u16_reads_back(n: u16)
    ensures
        le_bytes(n as nat, 2).len() == 2,
        le_value(le_bytes(n as nat, 2)) == n,
{
    lemma_le_bytes_2(n as nat);
    lemma_le_value_2(le_bytes(n as nat, 2));
}

/// A 64-bit number reads back as it was written.
pub proof fn law_u64_reads_back(n: u64)
    ensures
        le_bytes(n as nat, 8).len() == 8,
        le_value(le_bytes(n as nat, 8)) == n,
{
    lemma_le_bytes_len(n as nat, 8);
    assert(pow256(8) == 0x1_0000_0000_0000_0000) by {
        reveal_with_fuel(pow256, 9);
    }
    lemma_le_reads_back(n as nat, 8);
}

/// Powers of 256.
pub open spec fn pow256(width: nat) -> nat
    decreases width,
{
    if width == 0 {
        1
    } else {
        256 * pow256((width - 1) as nat)
    }
}

/// A number that fits in `width` bytes reads back as it was written.
pub proof fn lemma_le_reads_back(n: nat, width: nat)
    requires
        n < pow256(width),
    ensures
        le_value(le_bytes(n, width)) == n,
    decreases width,
{
    if width > 0 {
        let rest = le_bytes(n / 256, (width - 1) as nat);
        lemma_le_reads_back(n / 256, (width - 1) as nat);
        assert(le_bytes(n, width).skip(1) =~= rest);
    }
}

/// Appending a unit appends its two bytes.
pub proof fn lemma_unit_bytes_push(units: Seq<u16>, unit: u16)
    ensures
        unit_bytes(units.push(unit)) == unit_bytes(units) + le_bytes(unit as nat, 2),
    decreases units.len(),
{
    let more = units.push(unit);
    if units.len() == 0 {
        assert(more.skip(1) =~= Seq::<u16>::empty());
        assert(unit_bytes(more.skip(1)) =~= Seq::<u8>::empty());
        assert(unit_bytes(more) =~= le_bytes(unit as nat, 2));
        assert(unit_bytes(units) + le_bytes(unit as nat, 2) =~= le_bytes(unit as nat, 2));
    } else {
        lemma_unit_bytes_push(units.skip(1), unit);
        assert(more.skip(1) =~= units.skip(1).push(unit));
        assert(unit_bytes(more) =~= unit_bytes(units) + le_bytes(unit as nat, 2));
    }
}

/// Each unit takes two bytes.
pub proof fn lemma_unit_bytes_len(units: Seq<u16>)
    ensures
        unit_bytes(units).len() == 2 * units.len(),
    decreases units.len(),
{
    if units.len() > 0 {
        lemma_unit_bytes_len(units.skip(1));
        lemma_le_bytes_len(units[0] as nat, 2);
    }
}

/// Each unit reads back from its place in the bytes.
pub proof fn lemma_unit_bytes_at(units: Seq<u16>, i: int)
    requires
        0 <= i < units.len(),
    ensures
        unit_bytes(units).len() == 2 * units.len(),
        u16_at(unit_bytes(units), 2 * i) == units[i],
    decreases units.len(),
{
    lemma_unit_bytes_len(units);
    lemma_unit_bytes_len(units.skip(1));
    lemma_le_bytes_len(units[0] as nat, 2);
    let bytes = unit_bytes(units);
    let rest = unit_bytes(units.skip(1));
    if i == 0 {
        law_u16_reads_back(units[0]);
        assert(bytes.subrange(0, 2) =~= le_bytes(units[0] as nat, 2));
    } else {
        lemma_unit_bytes_at(units.skip(1), i - 1);
        assert(bytes.subrange(2 * i, 2 * i + 2) =~= rest.subrange(2 * (i - 1), 2 * (i - 1) + 2));
    }
}

/// Each unit takes two bytes, at twice its place: the remainder by 256, then the quotient.
pub proof fn law_units_stand_in_place(units: Seq<u16>, i: int)
    requires
        0 <= i < units.len(),
    ensures
        unit_bytes(units).len() == 2 * units.len(),
        unit_bytes(units)[2 * i] == units[i] % 256,
        unit_bytes(units)[2 * i + 1] == units[i] / 256,
{
    lemma_unit_bytes_at(units, i);
    lemma_u16_at(unit_bytes(units), 2 * i);
}

/// The unsigned 16-bit integer of two bytes, least significant first.
pub fn u16_from_le(lo: u8, hi: u8) -> (value: u16)
    ensures
        value == lo + 256 * hi,
{
    lo as u16 + 256 * (hi as u16)
}

/// The unsigned 64-bit integer in the eight bytes of `data` at `offset`.
pub fn u64_from_le(data: &[u8], offset: usize) -> (value: u64)
    requires
        offset + 8 <= data@.len(),
    ensures
        value == le_value(data@.subrange(offset as int, offset + 8)),
{
    proof {
        lemma_le_value_8(data@.subrange(offset as int, offset + 8));
    }
    data[offset] as u64 + 0x100 * (data[offset + 1] as u64) + 0x1_0000 * (data[offset + 2] as u64)
        + 0x100_0000 * (data[offset + 3] as u64) + 0x1_0000_0000 * (data[offset + 4] as u64)
        + 0x100_0000_0000 * (data[offset + 5] as u64) + 0x1_0000_0000_0000 * (data[offset
        + 6] as u64) + 0x100_0000_0000_0000 * (data[offset + 7] as u64)
}

/// Appends the bytes of `units` to `out`, each unit least significant byte first.
pub fn push_unit_bytes(out: &mut Vec<u8>, units: &[u16])
    ensures
        final(out)@ == old(out)@ + unit_bytes(units@),
{
    let ghost start = out@;
    let mut i: usize = 0;
    proof {
        assert(units@.take(0) =~= Seq::<u16>::empty());
    }
    while i < units.len()
        invariant
            i <= units@.len(),
            out@ =~= start + unit_bytes(units@.take(i as int)),
        decreases units@.len() - i,
    {
        let unit: u16 = units[i];
        out.push((unit % 256) as u8);
        out.push((unit / 256) as u8);
        proof {
            lemma_le_bytes_2(unit as nat);
            assert(units@.take(i + 1) =~= units@.take(i as int).push(unit));
            lemma_unit_bytes_push(units@.take(i as int), unit);
        }
        i += 1;
    }
    proof {
        assert(units@.take(i as int) =~= units@);
    }
}

/// The two's complement reading of 64 bits.
pub fn i64_from_bits(bits: u64) -> (value: i64)
    ensures
        i64_bits(value) == bits,
        value == bits || value + 0x1_0000_0000_0000_0000 == bits,
{
    let value: i64 = bits as i64;
    assert(bits < 0x8000_0000_0000_0000u64 ==> bits as i64 == bits) by (bit_vector);
    assert(bits >= 0x8000_0000_0000_0000u64 ==> bits as i64 == bits - 0x1_0000_0000_0000_0000)
        by (bit_vector);
    value
}

} // verus!
