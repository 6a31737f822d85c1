//! The phone-identifier normalizer: canonicalizes a raw phone string into
//! the 9-digit national significant number the payload format requires.
//!
//! Normalization, in order: trim surrounding ASCII whitespace, drop every
//! `-` and `+`, drop a leading `66` country-code prefix (anchored: only at
//! the front, only once), strip leading `0` trunk digits, and finally
//! require exactly 9 ASCII digits.

use vstd::prelude::*;

use crate::errors::CodecError;
use crate::text::all_digit_bytes;

verus! {

/// An ASCII whitespace byte: space, tab, line feed, vertical tab, form
/// feed or carriage return.
pub open spec fn is_ascii_ws(b: u8) -> bool {
    b == 32 || (9 <= b && b <= 13)
}

/// The byte code of `-` or `+`, the separators removed from a raw number.
pub open spec fn is_sign_byte(b: u8) -> bool {
    b == 43 || b == 45
}

/// `s` without its leading whitespace.
pub open spec fn trim_front(s: Seq<u8>) -> Seq<u8>
    decreases s.len(),
{
    if s.len() > 0 && is_ascii_ws(s[0]) {
        trim_front(s.drop_first())
    } else {
        s
    }
}

/// `s` without its trailing whitespace.
pub open spec fn trim_back(s: Seq<u8>) -> Seq<u8>
    decreases s.len(),
{
    if s.len() > 0 && is_ascii_ws(s.last()) {
        trim_back(s.drop_last())
    } else {
        s
    }
}

/// `s` without surrounding whitespace.
pub open spec fn trimmed(s: Seq<u8>) -> Seq<u8> {
    trim_back(trim_front(s))
}

/// `s` with every `-` and `+` removed, wherever it occurs.
pub open spec fn without_signs(s: Seq<u8>) -> Seq<u8>
    decreases s.len(),
{
    if s.len() == 0 {
        Seq::empty()
    } else if is_sign_byte(s.last()) {
        without_signs(s.drop_last())
    } else {
        without_signs(s.drop_last()).push(s.last())
    }
}

/// `s` with a leading `66` country-code prefix dropped. The check is
/// anchored at the front: digits `66` elsewhere in the number are kept.
pub open spec fn without_country_prefix(s: Seq<u8>) -> Seq<u8> {
    if s.len() >= 2 && s[0] == 54 && s[1] == 54 {
        s.skip(2)
    } else {
        s
    }
}

/// `s` without its leading `0` trunk digits.
pub open spec fn without_leading_zeros(s: Seq<u8>) -> Seq<u8>
    decreases s.len(),
{
    if s.len() > 0 && s[0] == 48 {
        without_leading_zeros(s.drop_first())
    } else {
        s
    }
}

/// The full normalization pipeline over the raw bytes.
pub open spec fn sanitized(s: Seq<u8>) -> Seq<u8> {
    without_leading_zeros(without_country_prefix(without_signs(trimmed(s))))
}

/// True exactly when normalization yields a valid identifier: 9 bytes,
/// all ASCII digits.
pub open spec fn valid_phone(s: Seq<u8>) -> bool {
    sanitized(s).len() == 9 && all_digit_bytes(sanitized(s))
}

proof fn lemma_trim_front_at(s: Seq<u8>, i: int)
    requires
        0 <= i <= s.len(),
        forall|k: int| 0 <= k < i ==> is_ascii_ws(#[trigger] s[k]),
        i < s.len() ==> !is_ascii_ws(s[i]),
    ensures
        trim_front(s) == s.skip(i),
    decreases i,
{
    if i == 0 {
        assert(s.skip(0) =~= s);
    } else {
        assert(is_ascii_ws(s[0]));
        lemma_trim_front_at(s.drop_first(), i - 1);
        assert(s.drop_first().skip(i - 1) =~= s.skip(i));
    }
}

proof fn lemma_trim_back_at(s: Seq<u8>, j: int)
    requires
        0 <= j <= s.len(),
        forall|k: int| j <= k < s.len() ==> is_ascii_ws(#[trigger] s[k]),
        j > 0 ==> !is_ascii_ws(s[j - 1]),
    ensures
        trim_back(s) == s.take(j),
    decreases s.len(),
{
    if j == s.len() {
        if s.len() > 0 {
            assert(!is_ascii_ws(s.last()));
        }
        assert(s.take(j) =~= s);
    } else {
        assert(is_ascii_ws(s.last()));
        lemma_trim_back_at(s.drop_last(), j);
        assert(s.drop_last().take(j) =~= s.take(j));
    }
}

proof fn lemma_without_leading_zeros_at(s: Seq<u8>, i: int)
    requires
        0 <= i <= s.len(),
        forall|k: int| 0 <= k < i ==> #[trigger] s[k] == 48,
        i < s.len() ==> s[i] != 48,
    ensures
        without_leading_zeros(s) == s.skip(i),
    decreases i,
{
    if i == 0 {
        assert(s.skip(0) =~= s);
    } else {
        lemma_without_leading_zeros_at(s.drop_first(), i - 1);
        assert(s.drop_first().skip(i - 1) =~= s.skip(i));
    }
}

/// Normalizes the raw bytes of a phone number, yielding the 9 digit bytes
/// of the identifier, or the error when no valid identifier remains.
pub fn sanitize_phone_bytes(s: &Vec<u8>) -> (r: Result<Vec<u8>, CodecError>)
    ensures
        r is Ok <==> valid_phone(s@),
        r matches Ok(v) ==> v@ == sanitized(s@) && v@.len() == 9 && all_digit_bytes(v@),
        r matches Err(e) ==> e == CodecError::InvalidPhoneNumber,
{
    let n = s.len();

    let mut lo: usize = 0;
    while lo < n && (s[lo] == 32 || (9 <= s[lo] && s[lo] <= 13))
        invariant
            lo <= n == s@.len(),
            forall|k: int| 0 <= k < lo ==> is_ascii_ws(#[trigger] s@[k]),
        decreases n - lo,
    {
        lo += 1;
    }

    let mut hi: usize = n;
    while hi > lo && (s[hi - 1] == 32 || (9 <= s[hi - 1] && s[hi - 1] <= 13))
        invariant
            lo <= hi <= n == s@.len(),
            forall|k: int| hi <= k < n ==> is_ascii_ws(#[trigger] s@[k]),
        decreases hi,
    {
        hi -= 1;
    }

    proof {
        lemma_trim_front_at(s@, lo as int);
        lemma_trim_back_at(s@.skip(lo as int), hi - lo);
        assert(s@.skip(lo as int).take(hi - lo) =~= s@.subrange(lo as int, hi as int));
        assert(trimmed(s@) == s@.subrange(lo as int, hi as int));
    }

    let mut c: Vec<u8> = Vec::new();
    let mut i: usize = lo;
    proof {
        assert(s@.subrange(lo as int, lo as int) =~= Seq::<u8>::empty());
    }
    while i < hi
        invariant
            lo <= i <= hi <= n == s@.len(),
            c@ == without_signs(s@.subrange(lo as int, i as int)),
        decreases hi - i,
    {
        let b = s[i];
        proof {
            assert(s@.subrange(lo as int, i + 1).drop_last() =~= s@.subrange(
                lo as int,
                i as int,
            ));
            assert(s@.subrange(lo as int, i + 1).last() == s@[i as int]);
        }
        if !(b == 43 || b == 45) {
            c.push(b);
        }
        i += 1;
    }
    assert(c@ == without_signs(trimmed(s@)));

    let mut st: usize = 0;
    if c.len() >= 2 && c[0] == 54 && c[1] == 54 {
        st = 2;
    }
    let ghost st0: int = st as int;
    assert(without_country_prefix(c@) =~= c@.skip(st0));

    while st < c.len() && c[st] == 48
        invariant
            st0 <= st <= c@.len(),
            forall|k: int| st0 <= k < st ==> #[trigger] c@[k] == 48,
        decreases c@.len() - st,
    {
        st += 1;
    }

    proof {
        lemma_without_leading_zeros_at(c@.skip(st0), st - st0);
        assert(c@.skip(st0).skip(st - st0) =~= c@.skip(st as int));
        assert(sanitized(s@) == c@.skip(st as int));
    }

    if c.len() - st != 9 {
        return Err(CodecError::InvalidPhoneNumber);
    }

    let mut out: Vec<u8> = Vec::new();
    let mut k: usize = 0;
    while k < 9
        invariant
            k <= 9,
            st + 9 == c@.len(),
            sanitized(s@) == c@.skip(st as int),
            out@ =~= c@.subrange(st as int, st + k),
            all_digit_bytes(out@),
        decreases 9 - k,
    {
        let clen = c.len();
        assert(st + k < clen);
        let b = c[st + k];
        if !(48 <= b && b <= 57) {
            proof {
                assert(sanitized(s@)[k as int] == b);
                assert(!all_digit_bytes(sanitized(s@)));
            }
            return Err(CodecError::InvalidPhoneNumber);
        }
        out.push(b);
        k += 1;
    }
    proof {
        assert(out@ =~= c@.skip(st as int));
    }
    Ok(out)
}

} // verus!
