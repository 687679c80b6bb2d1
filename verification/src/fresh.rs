//! What the library takes from chance and from the clock.

use vstd::prelude::*;

verus! {

/// A random UUID (`uuid::Uuid::new_v4`) in its hyphenated text form, which
/// the `uuid` crate documents as 36 characters long.
#[verifier::external_body]
pub fn fresh_uuid() -> (r: String)
    ensures
        r@.len() == 36,
{
    uuid::Uuid::new_v4().to_string()
}

/// A random UUID (`uuid::Uuid::new_v4`) in its simple text form: 32
/// hexadecimal digits without hyphens.
#[verifier::external_body]
pub fn fresh_uuid_simple() -> (r: String)
    ensures
        r@.len() == 32,
{
    uuid::Uuid::new_v4().simple().to_string()
}

/// The seconds since the Unix epoch by the system clock
/// (`SystemTime::now`); zero when the clock is set before the epoch.
/// Nothing is stated of the value.
#[verifier::external_body]
pub fn unix_time_secs() -> u64 {
    std::time::SystemTime::now()
        .duration_since(std::time::SystemTime::UNIX_EPOCH)
        .unwrap_or_default()
        .as_secs()
}

} // verus!
