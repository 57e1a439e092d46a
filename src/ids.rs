//! Identifiers: parsing them at the boundary and minting fresh ones.

use crate::models::StoreError;
use vstd::prelude::*;

verus! {

/// What `uuid::Uuid::parse_str` makes of a text, as the 128-bit value of
/// the identifier, or `None` where the text is no identifier.
pub uninterp spec fn uuid_parsed(s: Seq<char>) -> Option<u128>;

/// Relies on `uuid::Uuid::parse_str` (read back with `as_u128`): the
/// outcome depends on the text alone.
#[verifier::external_body]
fn parse_uuid(s: &str) -> (r: Option<u128>)
    ensures
        r == uuid_parsed(s@),
{
    uuid::Uuid::parse_str(s).ok().map(|u| u.as_u128())
}

/// Relies on `uuid::Uuid::new_v4`: a fresh random identifier, of which
/// nothing else is promised.
#[verifier::external_body]
pub(crate) fn fresh_uuid() -> (r: u128) {
    uuid::Uuid::new_v4().as_u128()
}

/// The outcome of reading an identifier that a caller supplied: its value,
/// or `ValidationError` before anything reaches the store.
pub open spec fn id_outcome(parsed: Option<u128>) -> Result<u128, StoreError> {
    match parsed {
        Option::Some(v) => Ok(v),
        Option::None => Err(StoreError::ValidationError),
    }
}

/// Parses an identifier given as text (a path segment or a query value).
pub fn parse_id(s: &str) -> (r: Result<u128, StoreError>)
    ensures
        r == id_outcome(uuid_parsed(s@)),
{
    match parse_uuid(s) {
        Some(v) => Ok(v),
        None => Err(StoreError::ValidationError),
    }
}

} // verus!
