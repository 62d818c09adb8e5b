//! The calls that the supervisor makes into other crates and into std.

use vstd::prelude::*;
use vstd::utf8::{decode_utf8, valid_utf8};

verus! {

/// Relies on `uuid::Uuid::new_v4` and its `Display`: a random identifier,
/// written in the hyphenated form of 36 characters.
#[verifier::external_body]
pub(crate) fn new_task_id() -> (r: String)
    ensures
        r@.len() == 36,
{
    uuid::Uuid::new_v4().to_string()
}

/// Relies on `std::time::SystemTime::now` and chrono's
/// `From<SystemTime> for DateTime<Utc>` with `DateTime::timestamp`: the host
/// clock in whole seconds since the Unix epoch, or `None` where it reads
/// before the epoch (chrono gives negative seconds there). Nothing else is
/// known of the value. chrono's conversion fails only for a clock outside its
/// range of dates, beyond the year 262,000.
#[verifier::external_body]
pub(crate) fn now_unix_seconds() -> (r: Option<u64>) {
    u64::try_from(chrono::DateTime::<chrono::Utc>::from(std::time::SystemTime::now()).timestamp()).ok()
}

/// The text that lossy UTF-8 decoding makes of a byte sequence.
pub uninterp spec fn lossy_utf8(bytes: Seq<u8>) -> Seq<char>;

/// Relies on `String::from_utf8_lossy`: the bytes decoded as UTF-8, with
/// each invalid sequence replaced by U+FFFD; the result depends on the bytes
/// alone.
/// Each character of the result stands for at least one byte, and valid
/// UTF-8 comes back decoded unchanged.
#[verifier::external_body]
pub(crate) fn lossy_text(bytes: &[u8]) -> (r: String)
    ensures
        r@ == lossy_utf8(bytes@),
        r@.len() <= bytes@.len(),
        valid_utf8(bytes@) ==> r@ == decode_utf8(bytes@),
{
    String::from_utf8_lossy(bytes).into_owned()
}

} // verus!
