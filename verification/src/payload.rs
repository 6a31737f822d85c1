//! The payload assembler and the codec's orchestrator.
//!
//! The payload grammar is one fixed literal template with exactly two
//! substitution points, the identifier and the amount field, embedded in
//! an otherwise constant tag-length-value structure. The trailing `6304`
//! is the checksum field's own tag-and-length prefix; it belongs to the
//! bytes the checksum is computed over, not to the checksum itself.

use vstd::prelude::*;
use vstd::string::StrSliceExecFns;
use vstd::string::StringExecFns;
use vstd::string::StringSliceAdditionalSpecFns;
use vstd::utf8::encode_utf8;

use crate::amount::{amount_ok, dec8_seq, encode_amount, subunits_of, MonetaryAmount};
use crate::checksum::{checksum_u16, crc16_spec, hex4_bytes, hex4_seq, lemma_hex4_ascii};
use crate::errors::CodecError;
use crate::phone::{sanitize_phone_bytes, sanitized, valid_phone};
use crate::text::{all_digit_chars, ascii_chars_of, ascii_to_string, is_upper_hex_char};

verus! {

/// Every literal byte before the identifier slot: payload-format
/// indicator, static point-of-initiation method, the merchant-account
/// block's application identifier, and the phone proxy tag with its
/// leading `00` country marker.
pub open spec fn template_prefix() -> Seq<char> {
    "00020101021129370016A00000067701011101130066"@
}

/// Every literal byte between the identifier and the amount field:
/// country code, currency code, and the amount tag with its length.
pub open spec fn template_mid() -> Seq<char> {
    "5802TH53037645408"@
}

/// The checksum field's tag-and-length prefix, the last bytes before the
/// checksum value itself.
pub open spec fn template_checksum_tag() -> Seq<char> {
    "6304"@
}

/// The checksum-free payload: the fixed template with the identifier and
/// the amount field substituted in.
pub open spec fn assembled(id: Seq<char>, amt: Seq<char>) -> Seq<char> {
    template_prefix() + id + template_mid() + amt + template_checksum_tag()
}

/// The checksum suffix for a payload with the given UTF-8 bytes: its
/// 16-bit checksum rendered as 4 uppercase hexadecimal characters.
pub open spec fn checksum_chars(payload_bytes: Seq<u8>) -> Seq<char> {
    ascii_chars_of(hex4_seq(crc16_spec(payload_bytes)))
}

/// The complete payload generated for a raw phone number with the given
/// UTF-8 bytes and an amount `m / 10^s`: the assembled checksum-free
/// payload followed by its own checksum.
pub open spec fn final_payload(pb: Seq<u8>, m: int, s: nat) -> Seq<char> {
    let body = assembled(
        ascii_chars_of(sanitized(pb)),
        ascii_chars_of(dec8_seq(subunits_of(m, s))),
    );
    body + checksum_chars(encode_utf8(body))
}

/// True exactly when generation succeeds: the phone normalizes to a valid
/// identifier and the amount fits the minor-unit field.
pub open spec fn generate_ok(pb: Seq<u8>, m: int, s: nat) -> bool {
    valid_phone(pb) && amount_ok(m, s)
}

/// The full contract of payload generation: which inputs yield which
/// payload, and which error each rejected input yields. The phone is
/// checked first, so a bad phone masks a bad amount.
pub open spec fn generate_result(
    pb: Seq<u8>,
    m: int,
    s: nat,
    r: Result<String, CodecError>,
) -> bool {
    match r {
        Ok(p) => generate_ok(pb, m, s) && p@ == final_payload(pb, m, s),
        Err(e) => (e == CodecError::InvalidPhoneNumber && !valid_phone(pb)) || (e
            == CodecError::InvalidAmount && valid_phone(pb) && !amount_ok(m, s)),
    }
}

/// The stateless entry point of the codec.
pub struct PromptPayUtils;

impl PromptPayUtils {
    /// Normalizes a raw phone number into the 9-digit identifier, per the
    /// pipeline of [`sanitized`]; fails with [`CodecError::InvalidPhoneNumber`]
    /// when anything but 9 ASCII digits remains.
    pub fn sanitize_phone_number(phone_number: String) -> (r: Result<String, CodecError>)
        ensures
            r is Ok <==> valid_phone(encode_utf8(phone_number@)),
            r matches Ok(id) ==> id@ == ascii_chars_of(sanitized(encode_utf8(phone_number@))),
            r matches Err(e) ==> e == CodecError::InvalidPhoneNumber,
    {
        let bytes = phone_number.as_str().as_bytes_vec();
        match sanitize_phone_bytes(&bytes) {
            Ok(v) => Ok(ascii_to_string(v)),
            Err(e) => Err(e),
        }
    }

    /// Fills the payload template with an identifier and an amount field.
    pub fn assemble(id: &str, amt: &str) -> (r: String)
        requires
            id@.len() == 9,
            all_digit_chars(id@),
            amt@.len() == 8,
            all_digit_chars(amt@),
        ensures
            r@ == assembled(id@, amt@),
    {
        let mut p = String::new();
        p.append("00020101021129370016A00000067701011101130066");
        p.append(id);
        p.append("5802TH53037645408");
        p.append(amt);
        p.append("6304");
        proof {
            assert(p@ =~= assembled(id@, amt@));
        }
        p
    }

    /// Computes the checksum of `payload`'s UTF-8 bytes and renders it as
    /// 4 uppercase hexadecimal characters.
    pub fn calculate_precise_crc(payload: &str) -> (r: String)
        ensures
            r@ == checksum_chars(payload.spec_bytes()),
    {
        let bytes = payload.as_bytes_vec();
        let v = checksum_u16(&bytes);
        proof {
            lemma_hex4_ascii(v);
        }
        let hex = hex4_bytes(v);
        ascii_to_string(hex)
    }

    /// Generates the complete payload for a raw phone number and an
    /// amount: normalize, encode, assemble, then append the checksum.
    /// Fails on the first invalid input, phone before amount.
    pub fn generate_payload(phone_number: String, amount: MonetaryAmount) -> (r: Result<
        String,
        CodecError,
    >)
        requires
            amount.wf(),
        ensures
            generate_result(encode_utf8(phone_number@), amount.mantissa(), amount.scale(), r),
            r is Ok <==> generate_ok(encode_utf8(phone_number@), amount.mantissa(), amount.scale()),
    {
        let id = match Self::sanitize_phone_number(phone_number) {
            Ok(v) => v,
            Err(e) => {
                return Err(e);
            },
        };
        let amt = match encode_amount(&amount) {
            Ok(v) => v,
            Err(e) => {
                return Err(e);
            },
        };
        let body = Self::assemble(id.as_str(), amt.as_str());
        let crc = Self::calculate_precise_crc(body.as_str());
        let full = body.concat(crc.as_str());
        Ok(full)
    }
}

/// Generation is deterministic: any two results that the generation
/// contract admits for the same phone bytes and the same amount are the
/// same result — equal payloads on success, equal errors on failure.
pub proof fn lemma_generate_deterministic(
    pb: Seq<u8>,
    m: int,
    s: nat,
    r1: Result<String, CodecError>,
    r2: Result<String, CodecError>,
)
    requires
        generate_result(pb, m, s, r1),
        generate_result(pb, m, s, r2),
    ensures
        r1 is Ok <==> r2 is Ok,
        r1 matches Ok(p1) ==> (r2 matches Ok(p2) && p1@ == p2@),
        r1 matches Err(e1) ==> (r2 matches Err(e2) && e1 == e2),
{
}

/// The length of the literal prefix before the identifier slot.
pub open spec fn prefix_len() -> int {
    template_prefix().len() as int
}

/// The length of the literal run between the identifier and the amount.
pub open spec fn mid_len() -> int {
    template_mid().len() as int
}

/// Template invariance: outside the identifier slot and the amount slot,
/// the assembled checksum-free payload is byte-identical for all valid
/// inputs.
pub proof fn lemma_template_invariance(
    id1: Seq<char>,
    amt1: Seq<char>,
    id2: Seq<char>,
    amt2: Seq<char>,
)
    requires
        id1.len() == 9,
        amt1.len() == 8,
        id2.len() == 9,
        amt2.len() == 8,
    ensures
        assembled(id1, amt1).len() == assembled(id2, amt2).len(),
        forall|i: int|
            0 <= i < assembled(id1, amt1).len() && !(prefix_len() <= i < prefix_len() + 9) && !(
            prefix_len() + 9 + mid_len() <= i < prefix_len() + 9 + mid_len() + 8)
                ==> assembled(id1, amt1)[i] == assembled(id2, amt2)[i],
{
}

/// Round-trip structure: the final payload is the checksum-free payload
/// plus exactly 4 characters, and those 4 are uppercase hexadecimal
/// digits.
pub proof fn lemma_final_payload_structure(pb: Seq<u8>, m: int, s: nat)
    ensures
        final_payload(pb, m, s).len() == assembled(
            ascii_chars_of(sanitized(pb)),
            ascii_chars_of(dec8_seq(subunits_of(m, s))),
        ).len() + 4,
        forall|i: int|
            final_payload(pb, m, s).len() - 4 <= i < final_payload(pb, m, s).len()
                ==> is_upper_hex_char(#[trigger] final_payload(pb, m, s)[i]),
{
    let body = assembled(
        ascii_chars_of(sanitized(pb)),
        ascii_chars_of(dec8_seq(subunits_of(m, s))),
    );
    let v = crc16_spec(encode_utf8(body));
    lemma_hex4_ascii(v);
    assert forall|i: int|
        final_payload(pb, m, s).len() - 4 <= i < final_payload(pb, m, s).len()
            implies is_upper_hex_char(#[trigger] final_payload(pb, m, s)[i]) by {
        let k = i - body.len();
        assert(final_payload(pb, m, s)[i] == checksum_chars(encode_utf8(body))[k]);
        assert(checksum_chars(encode_utf8(body))[k] == hex4_seq(v)[k] as char);
    }
}

} // verus!
