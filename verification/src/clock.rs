//! Identifiers and wall-clock time, drawn from the `uuid` and `chrono` crates.
use vstd::prelude::*;
use crate::text::digit_char;

verus! {

/// A fresh random identifier: `uuid::Uuid::new_v4()` as its 128 bits.
/// The value is random, so nothing is stated about it. It fails only when
/// the operating system's random source does, which is the machine's state,
/// not an input.
#[verifier::external_body]
pub(crate) fn new_uuid() -> u128 {
    uuid::Uuid::new_v4().as_u128()
}

/// The current time: `chrono::Utc::now()` as microseconds since the Unix
/// epoch. It depends on the machine's clock, so nothing is stated about it.
/// chrono panics when the system clock reads a time before 1970; that is the
/// machine's state, not an input.
#[verifier::external_body]
pub(crate) fn now_micros() -> i64 {
    chrono::Utc::now().timestamp_micros()
}

/// The `width` lowest hexadecimal digits of `n`, most significant first,
/// in lowercase.
pub open spec fn hex_padded(n: nat, width: nat) -> Seq<char>
    decreases width,
{
    if width == 0 {
        Seq::empty()
    } else {
        hex_padded(n / 16, (width - 1) as nat).push(digit_char(n % 16))
    }
}

/// The hyphenated text of an identifier: the 32 lowercase hexadecimal digits
/// of its 128 bits, most significant first, in groups of 8, 4, 4, 4 and 12.
pub open spec fn uuid_text(id: u128) -> Seq<char> {
    let h = hex_padded(id as nat, 32);
    h.subrange(0, 8) + seq!['-'] + h.subrange(8, 12) + seq!['-'] + h.subrange(12, 16) + seq!['-']
        + h.subrange(16, 20) + seq!['-'] + h.subrange(20, 32)
}

/// The text of an identifier: `uuid::Uuid::from_u128(id)` displayed, which
/// (by uuid's source) writes the big-endian bytes of `id` as lowercase
/// hexadecimal in groups of 8, 4, 4, 4 and 12 digits.
#[verifier::external_body]
pub(crate) fn uuid_string(id: u128) -> (s: String)
    ensures
        s@ == uuid_text(id),
{
    uuid::Uuid::from_u128(id).to_string()
}

/// What chrono writes for an instant given in microseconds since the Unix
/// epoch: `DateTime::<Utc>::from_timestamp_micros(micros)` in RFC 3339 form
/// (`to_rfc3339`), or the empty text for an instant chrono cannot represent.
pub uninterp spec fn rfc3339_text(micros: i64) -> Seq<char>;

/// The RFC 3339 text of an instant, by chrono: `from_timestamp_micros` then
/// `to_rfc3339`, empty where chrono has no such instant. Named by
/// [`rfc3339_text`]; nothing more is stated.
#[verifier::external_body]
pub(crate) fn timestamp_text(micros: i64) -> (s: String)
    ensures
        s@ == rfc3339_text(micros),
{
    chrono::DateTime::<chrono::Utc>::from_timestamp_micros(micros).map(|d| d.to_rfc3339()).unwrap_or_default()
}

} // verus!
