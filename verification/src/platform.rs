//! Values only the running platform can provide — the current time,
//! fresh identifiers, random bytes — and one string primitive the
//! verifier has no specification for.

use vstd::prelude::*;

verus! {

/// Relies on chrono's `Utc::now` / `DateTime::timestamp`: the current
/// wall-clock time in whole seconds since the Unix epoch.  Nothing is
/// promised of the clock's value.
#[verifier::external_body]
pub fn now_seconds() -> i64 {
    chrono::Utc::now().timestamp()
}

/// Relies on chrono's `Utc::now` / `DateTime::timestamp_micros`: the
/// current wall-clock time in microseconds since the Unix epoch.
/// Nothing is promised of the clock's value.
#[verifier::external_body]
pub fn now_micros() -> i64 {
    chrono::Utc::now().timestamp_micros()
}

/// Relies on uuid's `Uuid::new_v4` / `Uuid::as_u128`: a freshly drawn
/// random 128-bit identifier.  Nothing is promised of a random value.
#[verifier::external_body]
pub fn fresh_id() -> u128 {
    uuid::Uuid::new_v4().as_u128()
}

/// Relies on rand's `random`: twenty uniformly random bytes, rendered
/// as a 0x-prefixed hex address.  Only the length is promised.
#[verifier::external_body]
pub fn random_address_hex() -> (r: String)
    ensures
        r@.len() == 42,
{
    let bytes: [u8; 20] = rand::random();
    let mut s = String::from("0x");
    for b in bytes.iter() {
        s.push_str(&format!("{:02x}", b));
    }
    s
}

/// Relies on `str`'s `PartialEq`: two string slices are equal exactly
/// when they hold the same characters.
#[verifier::external_body]
pub fn str_eq(a: &str, b: &str) -> (r: bool)
    ensures
        r == (a@ == b@),
{
    a == b
}

} // verus!
