//! The part of persistence that decides rather than transports: errors of
//! the storage boundary, and turning the identifier that the store hands
//! back for an inserted event into a UUID value.
use vstd::prelude::*;

verus! {

/// A failure at the storage boundary.
#[derive(Clone, Debug, PartialEq, Eq)]
pub enum ChronovoxError {
    /// A field was missing from a record, or held an unusable value.
    MissingField(String),
    /// A record could not be decoded.
    Decode(String),
    /// The store could not be reached or refused the request.
    Transport(String),
}

/// The 128-bit value of the UUID that `s` spells, in any of the textual forms
/// that the `uuid` crate reads, or `None` if `s` spells none.
pub uninterp spec fn parsed_uuid(s: Seq<char>) -> Option<u128>;

/// Relies on `uuid::Uuid::parse_str` and `Uuid::as_u128`: the parse of `s`,
/// a function of its text alone.
#[verifier::external_body]
fn parse_uuid(s: &str) -> (r: Option<u128>)
    ensures
        r == parsed_uuid(s@),
{
    match uuid::Uuid::parse_str(s) {
        Ok(u) => Some(u.as_u128()),
        Err(_) => None,
    }
}

/// The error for a field that is absent or unusable.
pub open spec fn is_missing_field(r: Result<u128, ChronovoxError>, field: Seq<char>) -> bool {
    r matches Err(ChronovoxError::MissingField(f)) && f@ == field
}

/// The event identifier, given the parse of the `id` text that the store
/// returned (`None` where there was no text).
pub fn event_id_from_parsed(text: Option<&str>, parsed: Option<u128>) -> (r: Result<
    u128,
    ChronovoxError,
>)
    ensures
        text is None ==> is_missing_field(r, "id"@),
        text is Some && parsed is Some ==> r == Ok::<u128, ChronovoxError>(parsed->0),
        text is Some && parsed is None ==> is_missing_field(r, "id parse"@),
{
    proof {
        reveal_strlit("id");
        reveal_strlit("id parse");
    }
    match text {
        None => Err(ChronovoxError::MissingField(String::from_str("id"))),
        Some(_) => match parsed {
            Some(v) => Ok(v),
            None => Err(ChronovoxError::MissingField(String::from_str("id parse"))),
        },
    }
}

/// The event identifier from the `id` text that the store returned for an
/// inserted event: missing text and text that is no UUID are both reported
/// as a missing field.
pub fn event_id_from(text: Option<&str>) -> (r: Result<u128, ChronovoxError>)
    ensures
        text is None ==> is_missing_field(r, "id"@),
        text matches Some(s) ==> match parsed_uuid(s@) {
            Some(v) => r == Ok::<u128, ChronovoxError>(v),
            None => is_missing_field(r, "id parse"@),
        },
{
    let parsed = match text {
        Some(s) => parse_uuid(s),
        None => None,
    };
    event_id_from_parsed(text, parsed)
}

} // verus!
