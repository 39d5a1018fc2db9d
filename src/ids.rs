use vstd::prelude::*;
use crate::error::RegistryError;

verus! {

/// The 128-bit value that `uuid::Uuid::parse_str` reads from a text, or
/// `None` where it rejects the text.
pub uninterp spec fn uuid_value_of(s: Seq<char>) -> Option<u128>;

/// Relies on `uuid::Uuid::parse_str` and `uuid::Uuid::as_u128`: the outcome
/// depends on the text alone, and the empty text is rejected.
#[verifier::external_body]
fn parse_uuid(s: &str) -> (r: Option<u128>)
    ensures
        r == uuid_value_of(s@),
        s@.len() == 0 ==> r is None,
{
    match uuid::Uuid::parse_str(s) {
        Ok(u) => Some(u.as_u128()),
        Err(_) => None,
    }
}

pub open spec fn spec_id_from_parsed(parsed: Option<u128>) -> Result<u128, RegistryError> {
    match parsed {
        Some(v) => Ok(v),
        None => Err(RegistryError::ValidationError),
    }
}

/// An identifier from the outcome of parsing it: a malformed one is a
/// validation error.
pub fn id_from_parsed(parsed: Option<u128>) -> (r: Result<u128, RegistryError>)
    ensures
        r == spec_id_from_parsed(parsed),
{
    match parsed {
        Some(v) => Ok(v),
        None => Err(RegistryError::ValidationError),
    }
}

/// Reads an entity identifier from request text.
pub fn parse_id(text: &str) -> (r: Result<u128, RegistryError>)
    ensures
        r == spec_id_from_parsed(uuid_value_of(text@)),
        text@.len() == 0 ==> r == Err::<u128, RegistryError>(RegistryError::ValidationError),
{
    id_from_parsed(parse_uuid(text))
}

} // verus!
