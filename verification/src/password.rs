use vstd::prelude::*;

verus! {

/// Whether bcrypt's `verify` accepts this password for this hash string.
/// The check rederives the digest from the password and the salt and cost
/// carried inside the hash string, so it is a deterministic function of the
/// two arguments alone.
pub uninterp spec fn bcrypt_matches(password: Seq<char>, hash: Seq<char>) -> bool;

/// Whether a string is a well-formed bcrypt hash: sixty ASCII characters of
/// the form `$<version>$<cost>$<salt-and-digest>`, with a known version
/// prefix, a cost within bcrypt's allowed range, and valid base64 salt and
/// digest parts — exactly the strings that bcrypt's own hashing produces and
/// that its `verify` can parse and recompute.
pub uninterp spec fn bcrypt_valid_hash(hash: Seq<char>) -> bool;

/// Relies on bcrypt::hash: on success the result is a well-formed bcrypt
/// hash that bcrypt::verify accepts for exactly this password. The salt is
/// drawn from the operating system's randomness, so the call may fail, and
/// two calls on one password return different hashes; nothing more is
/// promised.
#[verifier::external_body]
pub(crate) fn hash_password(password: &str, cost: u32) -> (r: Result<String, ()>)
    ensures
        match r {
            Ok(h) => bcrypt_valid_hash(h@) && bcrypt_matches(password@, h@),
            Err(()) => true,
        },
{
    match bcrypt::hash(password, cost) {
        Ok(h) => Ok(h),
        Err(_) => Err(()),
    }
}

/// Relies on bcrypt::verify: it errs exactly on a malformed hash string,
/// and otherwise reports deterministically whether the password matches the
/// hash.
#[verifier::external_body]
pub(crate) fn verify_password(password: &str, hash: &str) -> (r: Result<bool, ()>)
    ensures
        r is Ok <==> bcrypt_valid_hash(hash@),
        match r {
            Ok(b) => b == bcrypt_matches(password@, hash@),
            Err(()) => true,
        },
{
    match bcrypt::verify(password, hash) {
        Ok(b) => Ok(b),
        Err(_) => Err(()),
    }
}

} // verus!
