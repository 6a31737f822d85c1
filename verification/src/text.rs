//! ASCII text helpers shared by the codec modules.
//!
//! The codec manipulates payloads as byte sequences and hands them out as
//! `String`s; every byte it ever turns into a character is printable ASCII.

use vstd::prelude::*;

verus! {

/// The characters spelled by a sequence of ASCII bytes.
pub open spec fn ascii_chars_of(s: Seq<u8>) -> Seq<char> {
    s.map_values(|b: u8| b as char)
}

/// True if every byte of `s` is an ASCII decimal digit.
pub open spec fn all_digit_bytes(s: Seq<u8>) -> bool {
    forall|i: int| 0 <= i < s.len() ==> 48 <= #[trigger] s[i] <= 57
}

/// True if every character of `s` is an ASCII decimal digit.
pub open spec fn all_digit_chars(s: Seq<char>) -> bool {
    forall|i: int| 0 <= i < s.len() ==> 48 <= #[trigger] s[i] as u32 <= 57
}

/// An uppercase hexadecimal digit, as rendered in the checksum suffix.
pub open spec fn is_upper_hex_char(c: char) -> bool {
    48 <= c as u32 <= 57 || 65 <= c as u32 <= 70
}

/// Relies on `String::from_utf8`: a vector of bytes below 0x80 is valid
/// UTF-8 and decodes to exactly those code points.
#[verifier::external_body]
pub fn ascii_to_string(v: Vec<u8>) -> (r: String)
    requires
        forall|i: int| 0 <= i < v@.len() ==> v@[i] < 128,
    ensures
        r@ == ascii_chars_of(v@),
{
    String::from_utf8(v).unwrap()
}

} // verus!
