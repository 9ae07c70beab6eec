//! Byte-level integer codecs used by the wire protocol: little-endian 32-bit
//! values, big-endian 64-bit length prefixes, and decimal formatting.

use vstd::prelude::*;

verus! {

/// The unsigned value of four little-endian bytes.
pub open spec fn u32_of_le(b: Seq<u8>) -> nat
    recommends
        b.len() == 4,
{
    (b[0] + b[1] * 0x100 + b[2] * 0x1_0000 + b[3] * 0x100_0000) as nat
}

/// The signed two's-complement value of four little-endian bytes.
pub open spec fn i32_of_le(b: Seq<u8>) -> int
    recommends
        b.len() == 4,
{
    if u32_of_le(b) < 0x8000_0000 {
        u32_of_le(b) as int
    } else {
        u32_of_le(b) - 0x1_0000_0000
    }
}

/// The four little-endian bytes of a 32-bit value.
pub open spec fn u32_le_bytes(v: u32) -> Seq<u8> {
    seq![
        (v % 0x100) as u8,
        ((v / 0x100) % 0x100) as u8,
        ((v / 0x1_0000) % 0x100) as u8,
        ((v / 0x100_0000) % 0x100) as u8,
    ]
}

pub fn u32_from_le_bytes(b: &Vec<u8>) -> (v: u32)
    requires
        b@.len() == 4,
    ensures
        v as nat == u32_of_le(b@),
{
    (b[0] as u32) + (b[1] as u32) * 0x100 + (b[2] as u32) * 0x1_0000 + (b[3] as u32) * 0x100_0000
}

pub fn u32_to_le_bytes(v: u32) -> (r: Vec<u8>)
    ensures
        r@ == u32_le_bytes(v),
{
    let r: Vec<u8> = vec![
        (v % 0x100) as u8,
        ((v / 0x100) % 0x100) as u8,
        ((v / 0x1_0000) % 0x100) as u8,
        ((v / 0x100_0000) % 0x100) as u8,
    ];
    proof {
        assert(r@ =~= u32_le_bytes(v));
    }
    r
}

/// Writing a 32-bit value as four little-endian bytes and reading them back
/// yields the value again.
pub proof fn lemma_u32_le_round_trip(v: u32)
    ensures
        u32_of_le(u32_le_bytes(v)) == v,
{
    assert(v % 0x100 + (v / 0x100 % 0x100) * 0x100 + (v / 0x1_0000 % 0x100) * 0x1_0000 + (v
        / 0x100_0000 % 0x100) * 0x100_0000 == v) by (bit_vector);
}

/// The unsigned value of eight big-endian bytes.
pub open spec fn u64_of_be(b: Seq<u8>) -> nat
    recommends
        b.len() == 8,
{
    (b[0] * 0x100_0000_0000_0000 + b[1] * 0x1_0000_0000_0000 + b[2] * 0x100_0000_0000 + b[3]
        * 0x1_0000_0000 + b[4] * 0x100_0000 + b[5] * 0x1_0000 + b[6] * 0x100 + b[7]) as nat
}

/// The eight big-endian bytes of a 64-bit value.
pub open spec fn u64_be_bytes(v: u64) -> Seq<u8> {
    seq![
        ((v / 0x100_0000_0000_0000) % 0x100) as u8,
        ((v / 0x1_0000_0000_0000) % 0x100) as u8,
        ((v / 0x100_0000_0000) % 0x100) as u8,
        ((v / 0x1_0000_0000) % 0x100) as u8,
        ((v / 0x100_0000) % 0x100) as u8,
        ((v / 0x1_0000) % 0x100) as u8,
        ((v / 0x100) % 0x100) as u8,
        (v % 0x100) as u8,
    ]
}

pub fn u64_from_be_bytes(b: &Vec<u8>) -> (v: u64)
    requires
        b@.len() >= 8,
    ensures
        v as nat == u64_of_be(b@.subrange(0, 8)),
{
    proof {
        assert(b@.subrange(0, 8)[0] == b@[0] && b@.subrange(0, 8)[1] == b@[1] && b@.subrange(
            0,
            8,
        )[2] == b@[2] && b@.subrange(0, 8)[3] == b@[3] && b@.subrange(0, 8)[4] == b@[4]
            && b@.subrange(0, 8)[5] == b@[5] && b@.subrange(0, 8)[6] == b@[6] && b@.subrange(
            0,
            8,
        )[7] == b@[7]);
    }
    (b[0] as u64) * 0x100_0000_0000_0000 + (b[1] as u64) * 0x1_0000_0000_0000 + (b[2] as u64)
        * 0x100_0000_0000 + (b[3] as u64) * 0x1_0000_0000 + (b[4] as u64) * 0x100_0000 + (
    b[5] as u64) * 0x1_0000 + (b[6] as u64) * 0x100 + (b[7] as u64)
}

pub fn u64_to_be_bytes(v: u64) -> (r: Vec<u8>)
    ensures
        r@ == u64_be_bytes(v),
{
    let r: Vec<u8> = vec![
        ((v / 0x100_0000_0000_0000) % 0x100) as u8,
        ((v / 0x1_0000_0000_0000) % 0x100) as u8,
        ((v / 0x100_0000_0000) % 0x100) as u8,
        ((v / 0x1_0000_0000) % 0x100) as u8,
        ((v / 0x100_0000) % 0x100) as u8,
        ((v / 0x1_0000) % 0x100) as u8,
        ((v / 0x100) % 0x100) as u8,
        (v % 0x100) as u8,
    ];
    proof {
        assert(r@ =~= u64_be_bytes(v));
    }
    r
}

/// Writing a 64-bit value as eight big-endian bytes and reading them back
/// yields the value again.
pub proof fn lemma_u64_be_round_trip(v: u64)
    ensures
        u64_of_be(u64_be_bytes(v)) == v,
{
    assert((v / 0x100_0000_0000_0000 % 0x100) * 0x100_0000_0000_0000 + (v / 0x1_0000_0000_0000
        % 0x100) * 0x1_0000_0000_0000 + (v / 0x100_0000_0000 % 0x100) * 0x100_0000_0000 + (v
        / 0x1_0000_0000 % 0x100) * 0x1_0000_0000 + (v / 0x100_0000 % 0x100) * 0x100_0000 + (v
        / 0x1_0000 % 0x100) * 0x1_0000 + (v / 0x100 % 0x100) * 0x100 + v % 0x100 == v)
        by (bit_vector);
}

/// The unsigned 64-bit pattern that a signed 32-bit value widens to: the value
/// itself where it is nonnegative, its two's complement otherwise.
pub open spec fn u64_widened_of_i32(x: i32) -> nat {
    if x >= 0 {
        x as nat
    } else {
        (x + 0x1_0000_0000_0000_0000) as nat
    }
}

/// Sign-extend a signed 32-bit field to the unsigned 64-bit message that is
/// handed to the encryption primitive.
pub fn widen_i32_to_u64(x: i32) -> (r: u64)
    ensures
        r as nat == u64_widened_of_i32(x),
{
    if x >= 0 {
        x as u64
    } else {
        let m: u64 = (-(x as i64)) as u64;
        0xFFFF_FFFF_FFFF_FFFF - m + 1
    }
}

/// The decimal digits of a number, most significant first, as ASCII bytes.
pub open spec fn dec_digits(n: nat) -> Seq<u8>
    decreases n,
{
    if n < 10 {
        seq![(48 + n) as u8]
    } else {
        dec_digits(n / 10).push((48 + n % 10) as u8)
    }
}

/// The wire form of a decrypted value: its decimal digits and a newline.
pub open spec fn decimal_line(n: nat) -> Seq<u8> {
    dec_digits(n).push(10u8)
}

fn push_decimal(n: u64, out: &mut Vec<u8>)
    ensures
        final(out)@ == old(out)@ + dec_digits(n as nat),
    decreases n,
{
    if n < 10 {
        out.push(48 + n as u8);
        proof {
            assert(out@ =~= old(out)@ + dec_digits(n as nat));
        }
    } else {
        push_decimal(n / 10, out);
        out.push(48 + (n % 10) as u8);
        proof {
            assert(out@ =~= old(out)@ + dec_digits(n as nat));
        }
    }
}

/// Format a decrypted value as its decimal digits followed by a newline,
/// exactly as the decrypt response is written to the connection.
pub fn format_decimal_line(n: u64) -> (r: Vec<u8>)
    ensures
        r@ == decimal_line(n as nat),
{
    let mut out: Vec<u8> = Vec::new();
    push_decimal(n, &mut out);
    out.push(10);
    proof {
        assert(out@ =~= decimal_line(n as nat));
    }
    out
}

} // verus!
