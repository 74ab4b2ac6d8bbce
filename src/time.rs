use vstd::prelude::*;

verus! {

/// The characters of an RFC 3339 time text: digits and `- + : . T Z`.
pub open spec fn is_rfc3339_char(c: char) -> bool {
    ('0' <= c && c <= '9') || c == '-' || c == '+' || c == ':' || c == '.' || c == 'T' || c == 'Z'
}

/// Relies on chrono's `Utc::now` and `DateTime::to_rfc3339`: the current UTC time as an
/// RFC 3339 text, with as many fractional digits as the clock gives. Nothing is known of
/// the value but the characters it is written with.
#[verifier::external_body]
pub(crate) fn utc_now_rfc3339() -> (r: String)
    ensures
        forall|i: int| 0 <= i < r@.len() ==> is_rfc3339_char(#[trigger] r@[i]),
{
    chrono::Utc::now().to_rfc3339()
}

/// Relies on chrono's `Utc::now` and `DateTime::to_rfc3339_opts`: the current UTC time
/// as an RFC 3339 text to the second. Nothing is known of the value but the characters
/// it is written with.
#[verifier::external_body]
pub(crate) fn utc_now_rfc3339_secs() -> (r: String)
    ensures
        forall|i: int| 0 <= i < r@.len() ==> is_rfc3339_char(#[trigger] r@[i]),
{
    chrono::Utc::now().to_rfc3339_opts(chrono::SecondsFormat::Secs, true)
}

} // verus!
