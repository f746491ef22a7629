//! Password hashing, through bcrypt.

use vstd::prelude::*;

verus! {

/// Whether bcrypt accepts `password` against the stored `hash`.
pub uninterp spec fn password_verifies(password: Seq<char>, hash: Seq<char>) -> bool;

/// Relies on `bcrypt::verify`: its answer depends on the password and the
/// hash alone (cost and salt are read from the hash). A malformed hash
/// counts as no match.
#[verifier::external_body]
pub(crate) fn verify_password(password: &str, hash: &str) -> (r: bool)
    ensures
        r == password_verifies(password@, hash@),
{
    matches!(bcrypt::verify(password, hash), Ok(true))
}

/// The work factor bcrypt recommends (`bcrypt::DEFAULT_COST`).
pub const DEFAULT_HASH_COST: u32 = 12;

/// Relies on `bcrypt::hash`: a hash at work factor `cost` with a fresh
/// random salt, which `bcrypt::verify` accepts for the same password.
/// `None` when the cost lies outside 4 ..= 31 or the random source fails.
#[verifier::external_body]
pub(crate) fn hash_password(password: &str, cost: u32) -> (r: Option<String>)
    ensures
        r matches Some(h) ==> password_verifies(password@, h@),
{
    bcrypt::hash(password, cost).ok()
}

} // verus!
