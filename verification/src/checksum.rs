//! The checksum engine: a 16-bit cyclic redundancy check over the
//! checksum-free payload, rendered as 4 uppercase hexadecimal digits.
//!
//! The algorithm uses polynomial `0x1021`, initial register `0xFFFF`,
//! no input or output bit reflection and no final XOR. Its reference
//! value for the ASCII bytes `"123456789"` is `0x29B1`.

use vstd::prelude::*;

verus! {

/// One register step: shift left by one and fold in the polynomial when
/// the high bit falls out.
pub open spec fn crc_shift(c: u16) -> u16 {
    if c & 0x8000 != 0 {
        (c << 1) ^ 0x1021
    } else {
        c << 1
    }
}

/// The register after `n` consecutive shift steps.
pub open spec fn crc_shift_n(c: u16, n: nat) -> u16
    decreases n,
{
    if n == 0 {
        c
    } else {
        crc_shift(crc_shift_n(c, (n - 1) as nat))
    }
}

/// Folding one input byte into the register: XOR it into the high byte,
/// then run eight shift steps.
pub open spec fn crc_step(c: u16, b: u8) -> u16 {
    crc_shift_n(c ^ ((b as u16) << 8), 8)
}

/// The checksum of a byte sequence: every byte folded, in order, into a
/// register that starts at `0xFFFF`.
pub open spec fn crc16_spec(s: Seq<u8>) -> u16
    decreases s.len(),
{
    if s.len() == 0 {
        0xFFFF
    } else {
        crc_step(crc16_spec(s.drop_last()), s.last())
    }
}

/// Folds one byte into the register.
fn crc_byte(c: u16, b: u8) -> (r: u16)
    ensures
        r == crc_step(c, b),
{
    let mut x: u16 = c ^ ((b as u16) << 8);
    let ghost x0: u16 = x;
    let mut j: usize = 0;
    while j < 8
        invariant
            j <= 8,
            x == crc_shift_n(x0, j as nat),
        decreases 8 - j,
    {
        x = if x & 0x8000 != 0 {
            (x << 1) ^ 0x1021
        } else {
            x << 1
        };
        j += 1;
    }
    x
}

/// The checksum of `data` as a 16-bit value.
pub fn checksum_u16(data: &Vec<u8>) -> (r: u16)
    ensures
        r == crc16_spec(data@),
{
    let mut c: u16 = 0xFFFF;
    let mut i: usize = 0;
    while i < data.len()
        invariant
            i <= data@.len(),
            c == crc16_spec(data@.take(i as int)),
        decreases data@.len() - i,
    {
        proof {
            assert(data@.take(i + 1).drop_last() =~= data@.take(i as int));
            assert(data@.take(i + 1).last() == data@[i as int]);
        }
        c = crc_byte(c, data[i]);
        i += 1;
    }
    proof {
        assert(data@.take(data@.len() as int) =~= data@);
    }
    c
}

/// The ASCII byte for one hexadecimal digit, uppercase.
pub open spec fn hex_char_of(d: u8) -> u8 {
    if d < 10 {
        (48 + d) as u8
    } else {
        (55 + d) as u8
    }
}

/// A 16-bit value rendered as exactly 4 uppercase hexadecimal digits,
/// most significant first.
pub open spec fn hex4_seq(v: u16) -> Seq<u8> {
    seq![
        hex_char_of(((v >> 12) & 0xF) as u8),
        hex_char_of(((v >> 8) & 0xF) as u8),
        hex_char_of(((v >> 4) & 0xF) as u8),
        hex_char_of((v & 0xF) as u8),
    ]
}

/// A nibble is below 16.
proof fn lemma_nibble_bound(x: u16)
    ensures
        x & 0xF < 16,
{
    assert(x & 0xF < 16) by (bit_vector);
}

/// Every byte of the rendered checksum is a digit or an uppercase letter
/// `A` through `F`.
pub proof fn lemma_hex4_ascii(v: u16)
    ensures
        hex4_seq(v).len() == 4,
        forall|i: int| 0 <= i < 4 ==>
            (48 <= #[trigger] hex4_seq(v)[i] <= 57 || 65 <= hex4_seq(v)[i] <= 70),
{
    lemma_nibble_bound(v >> 12);
    lemma_nibble_bound(v >> 8);
    lemma_nibble_bound(v >> 4);
    lemma_nibble_bound(v);
}

/// The value one uppercase hexadecimal digit byte stands for.
pub open spec fn hex_nibble(b: u8) -> int {
    if b < 58 {
        b - 48
    } else {
        b - 55
    }
}

/// The number a sequence of uppercase hexadecimal digit bytes spells.
pub open spec fn hex_digits_value(s: Seq<u8>) -> int
    decreases s.len(),
{
    if s.len() == 0 {
        0
    } else {
        hex_digits_value(s.drop_last()) * 16 + hex_nibble(s.last())
    }
}

/// The rendering is faithful: the 4 hexadecimal digits spell the 16-bit
/// checksum back.
pub proof fn lemma_hex4_value(v: u16)
    ensures
        hex_digits_value(hex4_seq(v)) == v,
{
    lemma_nibble_bound(v >> 12);
    lemma_nibble_bound(v >> 8);
    lemma_nibble_bound(v >> 4);
    lemma_nibble_bound(v);
    let x3 = ((v >> 12) & 0xF) as u8;
    let x2 = ((v >> 8) & 0xF) as u8;
    let x1 = ((v >> 4) & 0xF) as u8;
    let x0 = (v & 0xF) as u8;
    let t1 = seq![hex_char_of(x3)];
    let t2 = t1.push(hex_char_of(x2));
    let t3 = t2.push(hex_char_of(x1));
    let s = t3.push(hex_char_of(x0));
    assert(s =~= hex4_seq(v));
    assert(x3 < 16 && x2 < 16 && x1 < 16 && x0 < 16);
    assert(hex_nibble(hex_char_of(x3)) == x3);
    assert(hex_nibble(hex_char_of(x2)) == x2);
    assert(hex_nibble(hex_char_of(x1)) == x1);
    assert(hex_nibble(hex_char_of(x0)) == x0);
    assert(t1.drop_last() =~= Seq::<u8>::empty());
    assert(hex_digits_value(Seq::<u8>::empty()) == 0);
    assert(hex_digits_value(t1) == x3);
    assert(t2.drop_last() =~= t1);
    assert(hex_digits_value(t2) == x3 * 16 + x2);
    assert(t3.drop_last() =~= t2);
    assert(hex_digits_value(t3) == (x3 * 16 + x2) * 16 + x1);
    assert(s.drop_last() =~= t3);
    assert(hex_digits_value(s) == ((x3 * 16 + x2) * 16 + x1) * 16 + x0);
    assert(((v >> 12) & 0xF) * 4096 + ((v >> 8) & 0xF) * 256 + ((v >> 4) & 0xF) * 16 + (v & 0xF)
        == v) by (bit_vector);
}

/// Renders `v` as its 4 uppercase hexadecimal digit bytes.
pub fn hex4_bytes(v: u16) -> (r: Vec<u8>)
    ensures
        r@ == hex4_seq(v),
{
    proof {
        lemma_nibble_bound(v >> 12);
        lemma_nibble_bound(v >> 8);
        lemma_nibble_bound(v >> 4);
        lemma_nibble_bound(v);
    }
    let mut r: Vec<u8> = Vec::new();
    r.push(hex_digit_byte(((v >> 12) & 0xF) as u8));
    r.push(hex_digit_byte(((v >> 8) & 0xF) as u8));
    r.push(hex_digit_byte(((v >> 4) & 0xF) as u8));
    r.push(hex_digit_byte((v & 0xF) as u8));
    proof {
        assert(r@ =~= hex4_seq(v));
    }
    r
}

/// Renders one hexadecimal digit.
fn hex_digit_byte(d: u8) -> (r: u8)
    requires
        d < 16,
    ensures
        r == hex_char_of(d),
{
    if d < 10 {
        48 + d
    } else {
        55 + d
    }
}

} // verus!
