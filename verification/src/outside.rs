//! Calls into other crates and into parts of the standard library that carry no
//! specification. What each contract claims is believed, not proved.
use vstd::prelude::*;
use vstd::utf8::{decode_utf8, valid_utf8};

use crate::text::{hex_digit, json_string};

verus! {

/// The text that `String::from_utf8_lossy` makes of `bytes`.
pub uninterp spec fn lossy_text(bytes: Seq<u8>) -> Seq<char>;

/// `String::from_utf8_lossy`: the result depends on the bytes alone, and is their
/// decoding where they are valid UTF-8.
#[verifier::external_body]
pub(crate) fn from_utf8_lossy(bytes: &[u8]) -> (text: String)
    ensures
        text@ == lossy_text(bytes@),
        valid_utf8(bytes@) ==> text@ == decode_utf8(bytes@),
{
    String::from_utf8_lossy(bytes).into_owned()
}

/// `std::str::from_utf8`: it succeeds exactly on valid UTF-8 and then gives the
/// decoding.
#[verifier::external_body]
pub(crate) fn from_utf8(bytes: &[u8]) -> (text: Option<String>)
    ensures
        text is Some <==> valid_utf8(bytes@),
        text matches Some(t) ==> t@ == decode_utf8(bytes@),
{
    match std::str::from_utf8(bytes) {
        Ok(text) => Some(text.to_string()),
        Err(_) => None,
    }
}

/// The text that `{:?}` makes of a string.
pub uninterp spec fn debug_text(text: Seq<char>) -> Seq<char>;

/// `{:?}` on a string: the result depends on the string alone.
#[verifier::external_body]
pub(crate) fn debug_quoted(text: &str) -> (quoted: String)
    ensures
        quoted@ == debug_text(text@),
{
    format!("{:?}", text)
}

/// The error of `serde_json`, which is opaque here.
#[verifier::external_type_specification]
#[verifier::external_body]
pub struct ExJsonError(serde_json::Error);

/// `serde_json::to_string` on a string: it succeeds, and gives the string in double
/// quotes with quote, backslash and the control characters below U+0020 escaped.
#[verifier::external_body]
pub(crate) fn to_json(text: &str) -> (json: Result<String, serde_json::Error>)
    ensures
        json is Ok,
        json->Ok_0@ == json_string(text@),
{
    serde_json::to_string(text)
}

/// The error of `aws_smithy_types` for a time that RFC 3339 cannot write.
#[verifier::external_type_specification]
#[verifier::external_body]
pub struct ExDateTimeFormatError(aws_smithy_types::date_time::DateTimeFormatError);

/// The RFC 3339 text of the moment `nanos` nanoseconds after second `secs` of the
/// Unix epoch.
pub uninterp spec fn rfc3339_text(secs: i64, nanos: u32) -> Seq<char>;

/// Whether second `secs` of the Unix epoch lies in the years 1 to 9999.
pub open spec fn in_rfc3339_years(secs: i64) -> bool {
    -62_135_596_800 <= secs <= 253_402_300_799
}

/// `DateTime::from_secs_and_nanos` and `DateTime::fmt` with `Format::DateTime`, of
/// `aws_smithy_types`: the text depends on the moment alone, and there is one exactly
/// for the years 1 to 9999. A whole second of nanoseconds makes the first call panic.
#[verifier::external_body]
pub(crate) fn format_date_time(secs: i64, nanos: u32) -> (text: Result<
    String,
    aws_smithy_types::date_time::DateTimeFormatError,
>)
    requires
        nanos < 1_000_000_000,
    ensures
        text is Ok <==> in_rfc3339_years(secs),
        text matches Ok(t) ==> t@ == rfc3339_text(secs, nanos),
{
    aws_smithy_types::DateTime::from_secs_and_nanos(secs, nanos).fmt(
        aws_smithy_types::date_time::Format::DateTime,
    )
}

/// `dirs::home_dir`, as bytes. It reads the environment and the user database, so
/// nothing is said of what comes back.
#[verifier::external_body]
pub(crate) fn home_dir() -> (home: Option<Vec<u8>>) {
    match dirs::home_dir() {
        Some(home) => Some(home.into_os_string().into_encoded_bytes()),
        None => None,
    }
}

/// Whether `id` is a version 7 UUID in lower-case hyphenated form.
pub open spec fn is_uuid_v7(id: Seq<char>) -> bool {
    &&& id.len() == 36
    &&& forall|i: int|
        0 <= i < 36 ==> if i == 8 || i == 13 || i == 18 || i == 23 {
            #[trigger] id[i] == '-'
        } else {
            exists|d: nat| d < 16 && id[i] == #[trigger] hex_digit(d)
        }
    &&& id[14] == '7'
    &&& id[19] == '8' || id[19] == '9' || id[19] == 'a' || id[19] == 'b'
}

/// `uuid::Uuid::now_v7` and its `to_string`: which identifier comes back is a matter
/// of the clock and of chance, its form is not.
#[verifier::external_body]
pub(crate) fn uuid_now_v7() -> (id: String)
    ensures
        is_uuid_v7(id@),
{
    uuid::Uuid::now_v7().to_string()
}

} // verus!
