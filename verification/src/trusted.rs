//! Wrappers around outside-crate and std calls that the verified code relies
//! on. Each wrapper's contract states what the underlying call is documented
//! to do; Verus believes the contract and does not read the body.

use vstd::prelude::*;

verus! {

/// Relies on std's String::push: appends exactly the one character to the
/// end of the string.
#[verifier::external_body]
pub fn push_char(s: &mut String, c: char)
    ensures
        final(s)@ == old(s)@.push(c),
{
    s.push(c);
}

/// Relies on uuid's Uuid::new_v4 and to_string: a freshly generated random
/// identifier, rendered in the canonical hyphenated form, which is always 36
/// characters. Nothing more can be promised of a random value.
#[verifier::external_body]
pub fn new_uuid_string() -> (r: String)
    ensures
        r@.len() == 36,
{
    uuid::Uuid::new_v4().to_string()
}

/// Relies on chrono's Utc::now and to_rfc3339: the current time rendered as
/// an RFC 3339 timestamp. Nothing can be promised of a clock reading.
#[verifier::external_body]
pub fn now_rfc3339() -> String {
    chrono::Utc::now().to_rfc3339()
}

} // verus!
