//! Big-endian 32-bit numbers, as the chunk framing writes them.

use vstd::prelude::*;

verus! {

/// The number that four bytes spell, most significant byte first.
#[verifier::opaque]
pub open spec fn be_u32(bytes: Seq<u8>) -> u32
    recommends
        bytes.len() == 4,
{
    (bytes[0] * 0x100_0000 + bytes[1] * 0x1_0000 + bytes[2] * 0x100 + bytes[3]) as u32
}

/// The four bytes that spell `value`, most significant byte first.
#[verifier::opaque]
pub open spec fn be_bytes(value: u32) -> Seq<u8> {
    seq![
        (value / 0x100_0000) as u8,
        (value / 0x1_0000 % 0x100) as u8,
        (value / 0x100 % 0x100) as u8,
        (value % 0x100) as u8,
    ]
}

/// Spelling a number and reading it back gives the number.
pub proof fn lemma_be_u32_of_be_bytes(value: u32)
    ensures
        be_bytes(value).len() == 4,
        be_u32(be_bytes(value)) == value,
{
    reveal(be_u32);
    reveal(be_bytes);
    let x: int = value as int;
    let y: int = x / 0x100;
    let z: int = y / 0x100;
    let w: int = z / 0x100;
    vstd::arithmetic::div_mod::lemma_fundamental_div_mod(x, 0x100);
    vstd::arithmetic::div_mod::lemma_fundamental_div_mod(y, 0x100);
    vstd::arithmetic::div_mod::lemma_fundamental_div_mod(z, 0x100);
    lemma_split(z, (y % 0x100) * 0x100 + x % 0x100, 0x1_0000);
    lemma_split(w, (z % 0x100) * 0x1_0000 + (y % 0x100) * 0x100 + x % 0x100, 0x100_0000);
    assert(x / 0x1_0000 == z);
    assert(x / 0x100_0000 == w);
    assert(0 <= w < 0x100);
}

/// Reading four bytes and spelling the number gives the bytes.
pub proof fn lemma_be_bytes_of_be_u32(bytes: Seq<u8>)
    requires
        bytes.len() == 4,
    ensures
        be_bytes(be_u32(bytes)) == bytes,
{
    reveal(be_u32);
    reveal(be_bytes);
    let b0: int = bytes[0] as int;
    let b1: int = bytes[1] as int;
    let b2: int = bytes[2] as int;
    let b3: int = bytes[3] as int;
    let low1: int = b2 * 0x100 + b3;
    let low2: int = b1 * 0x1_0000 + low1;
    let x: int = b0 * 0x100_0000 + low2;
    assert(x == be_u32(bytes));
    lemma_split(b0, low2, 0x100_0000);
    lemma_split(b0 * 0x100 + b1, low1, 0x1_0000);
    lemma_split(b0 * 0x1_0000 + b1 * 0x100 + b2, b3, 0x100);
    lemma_split(b0, b1, 0x100);
    lemma_split(b0 * 0x100 + b1, b2, 0x100);
    assert(be_bytes(x as u32) =~= bytes);
}

/// Division and remainder of `high * base + low` by `base`.
proof fn lemma_split(high: int, low: int, base: int)
    requires
        0 <= low < base,
    ensures
        (high * base + low) / base == high,
        (high * base + low) % base == low,
{
    vstd::arithmetic::div_mod::lemma_fundamental_div_mod_converse(high * base + low, base, high, low);
}

/// Reads the big-endian number at `at` in `bytes`.
pub fn read_be_u32(bytes: &[u8], at: usize) -> (value: u32)
    requires
        at + 4 <= bytes@.len(),
    ensures
        value == be_u32(bytes@.subrange(at as int, at + 4)),
{
    proof {
        reveal(be_u32);
    }
    let b0: u32 = bytes[at] as u32;
    let b1: u32 = bytes[at + 1] as u32;
    let b2: u32 = bytes[at + 2] as u32;
    let b3: u32 = bytes[at + 3] as u32;
    b0 * 0x100_0000 + b1 * 0x1_0000 + b2 * 0x100 + b3
}

/// Appends the four big-endian bytes of `value` to `out`.
pub fn write_be_u32(out: &mut Vec<u8>, value: u32)
    ensures
        final(out)@ == old(out)@ + be_bytes(value),
{
    out.push((value / 0x100_0000) as u8);
    out.push((value / 0x1_0000 % 0x100) as u8);
    out.push((value / 0x100 % 0x100) as u8);
    out.push((value % 0x100) as u8);
    proof {
        reveal(be_bytes);
        assert(out@ =~= old(out)@ + be_bytes(value));
    }
}

} // verus!
