//! The amount encoder: converts a decimal currency amount into the
//! 8-digit zero-padded minor-unit field of the payload.
//!
//! An amount is a scaled decimal, `mantissa / 10^scale` major units.
//! Encoding multiplies by 100, rounds half away from zero to a whole
//! number of minor units, and rejects negative amounts and amounts that
//! do not fit the 8-digit field.

use vstd::prelude::*;

use crate::errors::CodecError;
use crate::text::{all_digit_bytes, all_digit_chars, ascii_chars_of, ascii_to_string};

verus! {

/// The `n`-th power of ten.
pub open spec fn pow10(n: nat) -> int
    decreases n,
{
    if n == 0 {
        1
    } else {
        10 * pow10((n - 1) as nat)
    }
}

proof fn lemma_pow10_pos(n: nat)
    ensures
        pow10(n) >= 1,
    decreases n,
{
    if n > 0 {
        lemma_pow10_pos((n - 1) as nat);
    }
}

proof fn lemma_pow10_le(a: nat, b: nat)
    requires
        a <= b,
    ensures
        pow10(a) <= pow10(b),
    decreases b,
{
    if a < b {
        lemma_pow10_le(a, (b - 1) as nat);
        lemma_pow10_pos((b - 1) as nat);
    }
}

proof fn lemma_pow10_28()
    ensures
        pow10(28) == 10000000000000000000000000000,
{
    reveal_with_fuel(pow10, 29);
}

/// The number of minor units an amount of `m / 10^s` major units stands
/// for: `m * 100 / 10^s`, rounded half away from zero. Meaningful for
/// `m >= 0`; negative amounts are rejected before this is consulted.
pub open spec fn subunits_of(m: int, s: nat) -> int {
    (200 * m + pow10(s)) / (2 * pow10(s))
}

/// True exactly when the amount can be encoded: non-negative, and its
/// minor units fit the 8-digit field.
pub open spec fn amount_ok(m: int, s: nat) -> bool {
    0 <= m && subunits_of(m, s) <= 99_999_999
}

/// `n` rendered as exactly `w` decimal digits, zero-padded on the left,
/// most significant first.
pub open spec fn dec_digits(n: int, w: nat) -> Seq<u8>
    decreases w,
{
    if w == 0 {
        Seq::empty()
    } else {
        dec_digits(n / 10, (w - 1) as nat).push((48 + (n % 10)) as u8)
    }
}

/// `n` rendered as the 8-digit zero-padded minor-unit field.
pub open spec fn dec8_seq(n: int) -> Seq<u8> {
    dec_digits(n, 8)
}

/// The number a sequence of decimal digit bytes spells.
pub open spec fn digits_value(s: Seq<u8>) -> int
    decreases s.len(),
{
    if s.len() == 0 {
        0
    } else {
        digits_value(s.drop_last()) * 10 + (s.last() - 48)
    }
}

proof fn lemma_dec_digits_ascii(n: int, w: nat)
    requires
        n >= 0,
    ensures
        dec_digits(n, w).len() == w,
        all_digit_bytes(dec_digits(n, w)),
    decreases w,
{
    if w > 0 {
        lemma_dec_digits_ascii(n / 10, (w - 1) as nat);
        let s = dec_digits(n, w);
        let t = dec_digits(n / 10, (w - 1) as nat);
        assert forall|i: int| 0 <= i < s.len() implies 48 <= #[trigger] s[i] <= 57 by {
            if i < t.len() {
                assert(s[i] == t[i]);
            }
        }
    }
}

/// The minor-unit field is 8 bytes long and all ASCII digits.
pub proof fn lemma_dec8_ascii(n: int)
    requires
        n >= 0,
    ensures
        dec8_seq(n).len() == 8,
        all_digit_bytes(dec8_seq(n)),
{
    lemma_dec_digits_ascii(n, 8);
}

proof fn lemma_dec_digits_value(n: int, w: nat)
    requires
        0 <= n < pow10(w),
    ensures
        digits_value(dec_digits(n, w)) == n,
    decreases w,
{
    if w > 0 {
        vstd::arithmetic::div_mod::lemma_fundamental_div_mod(n, 10);
        lemma_dec_digits_value(n / 10, (w - 1) as nat);
        let s = dec_digits(n, w);
        let t = dec_digits(n / 10, (w - 1) as nat);
        assert(s.drop_last() =~= t);
    }
}

/// The minor-unit field is faithful: its 8 digits spell the subunit
/// count back.
pub proof fn lemma_dec8_value(n: int)
    requires
        0 <= n <= 99_999_999,
    ensures
        digits_value(dec8_seq(n)) == n,
{
    assert(pow10(8) == 100000000) by {
        reveal_with_fuel(pow10, 9);
    }
    lemma_dec_digits_value(n, 8);
}

/// A non-negative decimal amount of money in major currency units,
/// `mantissa / 10^scale` (a negative mantissa is representable so that a
/// negative input can be rejected with the documented error).
pub struct MonetaryAmount {
    mantissa: i64,
    scale: u32,
}

impl MonetaryAmount {
    /// The scaled integer value of the amount.
    pub closed spec fn mantissa(&self) -> int {
        self.mantissa as int
    }

    /// The power of ten the mantissa is scaled down by.
    pub closed spec fn scale(&self) -> nat {
        self.scale as nat
    }

    /// Well-formed: the scale stays within the 28 fractional digits a
    /// decimal amount may carry.
    pub open spec fn wf(&self) -> bool {
        self.scale() <= 28
    }

    /// Builds the amount `mantissa / 10^scale`; `None` when the scale is
    /// beyond 28.
    pub fn new(mantissa: i64, scale: u32) -> (r: Option<MonetaryAmount>)
        ensures
            r is Some <==> scale <= 28,
            r matches Some(a) ==> a.mantissa() == mantissa as int && a.scale() == scale as nat
                && a.wf(),
    {
        if scale <= 28 {
            Some(MonetaryAmount { mantissa, scale })
        } else {
            None
        }
    }
}

/// `10^n`, for scales a well-formed amount may carry.
fn pow10_u128(n: u32) -> (r: u128)
    requires
        n <= 28,
    ensures
        r as int == pow10(n as nat),
    decreases n,
{
    if n == 0 {
        1
    } else {
        let prev = pow10_u128(n - 1);
        proof {
            lemma_pow10_le(n as nat, 28);
            lemma_pow10_28();
            assert(pow10(n as nat) == 10 * pow10((n - 1) as nat));
        }
        10 * prev
    }
}

/// Renders `n` as its `w` zero-padded decimal digit bytes.
fn dec_bytes(n: u32, w: u32) -> (r: Vec<u8>)
    ensures
        r@ == dec_digits(n as int, w as nat),
    decreases w,
{
    if w == 0 {
        Vec::new()
    } else {
        let mut r = dec_bytes(n / 10, w - 1);
        r.push(48 + (n % 10) as u8);
        r
    }
}

/// Encodes the amount as the 8-digit zero-padded minor-unit field, or
/// rejects it when it is negative or too large for the field.
pub fn encode_amount(amount: &MonetaryAmount) -> (r: Result<String, CodecError>)
    requires
        amount.wf(),
    ensures
        r is Ok <==> amount_ok(amount.mantissa(), amount.scale()),
        r matches Ok(f) ==> f@ == ascii_chars_of(
            dec8_seq(subunits_of(amount.mantissa(), amount.scale())),
        ) && f@.len() == 8 && all_digit_chars(f@),
        r matches Err(e) ==> e == CodecError::InvalidAmount,
{
    if amount.mantissa < 0 {
        return Err(CodecError::InvalidAmount);
    }
    let p: u128 = pow10_u128(amount.scale);
    let m: u128 = amount.mantissa as u128;
    proof {
        lemma_pow10_pos(amount.scale());
        lemma_pow10_le(amount.scale(), 28);
        lemma_pow10_28();
    }
    let num: u128 = 200 * m + p;
    let den: u128 = 2 * p;
    let sub: u128 = num / den;
    proof {
        assert(sub as int == subunits_of(amount.mantissa(), amount.scale()));
    }
    if sub > 99_999_999 {
        return Err(CodecError::InvalidAmount);
    }
    let bytes = dec_bytes(sub as u32, 8);
    proof {
        lemma_dec8_ascii(sub as int);
    }
    Ok(ascii_to_string(bytes))
}

} // verus!
