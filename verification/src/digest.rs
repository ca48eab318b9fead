//! Digests, and the identifiers made from them.
use crate::clock::utc_nanos;
use crate::text::{hex_worth, law_lower_hex_spells, lower_hex, signed_decimal, signed_decimal_text};
use vstd::prelude::*;

verus! {

/// The MD5 digest of `data`.
pub uninterp spec fn md5_digest(data: Seq<u8>) -> Seq<u8>;

/// The MD5 digest of the UTF-8 bytes of `text`, in lower-case hexadecimal.
pub open spec fn md5_hex_of(text: Seq<char>) -> Seq<char> {
    lower_hex(md5_digest(vstd::utf8::encode_utf8(text)))
}

/// The identifier made from a reading of the clock; a reading that does not fit
/// counts as zero.
pub open spec fn id_of_nanos(nanos: Option<i64>) -> Seq<char> {
    md5_hex_of(
        signed_decimal(
            match nanos {
                Some(n) => n as int,
                None => 0,
            },
        ),
    )
}

/// Calls `md5::compute`. Its result is a function of the bytes alone, 16 bytes long;
/// which function is not stated beyond the name `md5_digest`.
#[verifier::external_body]
fn md5_compute(data: &[u8]) -> (digest: [u8; 16])
    ensures
        digest@ == md5_digest(data@),
{
    md5::compute(data).0
}

/// Formats an `md5::Digest` with `{:x}`: two lower-case digits per byte, in order.
#[verifier::external_body]
fn md5_lower_hex(digest: [u8; 16]) -> (t: String)
    ensures
        t@ == lower_hex(digest@),
{
    format!("{:x}", md5::Digest(digest))
}

/// Calls `hex::encode`: two lower-case digits per byte, in order.
#[verifier::external_body]
pub(crate) fn hex_encode(bytes: &[u8]) -> (t: String)
    ensures
        t@ == lower_hex(bytes@),
{
    hex::encode(bytes)
}

/// The MD5 digest of `text` in lower-case hexadecimal.
pub fn md5_hex(text: &str) -> (t: String)
    ensures
        t@ == md5_hex_of(text@),
        t@.len() == 32,
{
    let digest = md5_compute(text.as_bytes());
    md5_lower_hex(digest)
}

/// The identifier made from the clock reading `nanos`.
pub fn id_from_nanos(nanos: Option<i64>) -> (t: String)
    ensures
        t@ == id_of_nanos(nanos),
        t@.len() == 32,
{
    let n: i64 = nanos.unwrap_or(0);
    md5_hex(signed_decimal_text(n).as_str())
}

/// A new identifier, made from the clock as it stands at the call.
pub fn uuid_v4_simple() -> (t: String)
    ensures
        exists|nanos: Option<i64>|
            (nanos matches Some(n) ==> n >= 0) && t@ == #[trigger] id_of_nanos(nanos),
        t@.len() == 32,
{
    id_from_nanos(utc_nanos())
}

/// The text of a digest is worth the 16 bytes of the MD5 digest of all the bytes of its
/// text, two lower-case digits for each.
pub proof fn law_md5_text(text: &str, t: String)
    requires
        call_ensures(md5_hex, (text,), t),
    ensures
        t@.len() == 32,
        t@.len() == 2 * md5_digest(vstd::utf8::encode_utf8(text@)).len(),
        forall|i: int|
            0 <= i < 16 ==> 16 * hex_worth(t@[2 * i]) + hex_worth(t@[2 * i + 1])
                == #[trigger] md5_digest(vstd::utf8::encode_utf8(text@))[i],
        forall|i: int|
            0 <= i < 32 ==> ('0' <= #[trigger] t@[i] <= '9' || 'a' <= t@[i] <= 'f'),
{
    law_lower_hex_spells(md5_digest(vstd::utf8::encode_utf8(text@)));
}

/// An identifier is the digest of its clock reading in decimal, and a reading that does not
/// fit gives the identifier of zero.
pub proof fn law_identifier(nanos: Option<i64>, id: String, reading: &str, digest: String)
    requires
        call_ensures(id_from_nanos, (nanos,), id),
        reading@ == signed_decimal(
            match nanos {
                Some(n) => n as int,
                None => 0,
            },
        ),
        call_ensures(md5_hex, (reading,), digest),
    ensures
        id@ == digest@,
        id@ == lower_hex(md5_digest(vstd::utf8::encode_utf8(reading@))),
{
}

/// A new identifier is that of some reading of the clock, in 32 lower-case hexadecimal
/// digits.
pub proof fn law_new_identifier(id: String)
    requires
        call_ensures(uuid_v4_simple, (), id),
    ensures
        id@.len() == 32,
        exists|nanos: Option<i64>|
            (nanos matches Some(n) ==> n >= 0) && id@ == #[trigger] id_of_nanos(nanos),
        forall|i: int|
            0 <= i < 32 ==> ('0' <= #[trigger] id@[i] <= '9' || 'a' <= id@[i] <= 'f'),
{
    let nanos = choose|nanos: Option<i64>|
        (nanos matches Some(n) ==> n >= 0) && id@ == #[trigger] id_of_nanos(nanos);
    law_lower_hex_spells(
        md5_digest(
            vstd::utf8::encode_utf8(
                signed_decimal(
                    match nanos {
                        Some(n) => n as int,
                        None => 0,
                    },
                ),
            ),
        ),
    );
}

} // verus!
