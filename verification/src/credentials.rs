//! Hashing and verifying credentials with Argon2.

use crate::register::Rejections;
use vstd::prelude::*;
use vstd::string::StrSliceExecFns;
use vstd::utf8::encode_utf8;

verus! {

/// The error type of the `argon2` crate.
#[verifier::external_type_specification]
#[verifier::external_body]
pub struct ExArgon2Error(argon2::Error);

/// What `argon2::hash_encoded` returns for a password and a salt under the
/// crate's default configuration: the encoded hash, or `None` where it fails.
pub uninterp spec fn argon2_hash_encoded(pwd: Seq<char>, salt: Seq<char>) -> Option<Seq<char>>;

/// What `argon2::verify_encoded` returns for an encoded hash and a password:
/// whether they match, or `None` where it fails.
pub uninterp spec fn argon2_verify_encoded(encoded: Seq<char>, pwd: Seq<char>) -> Option<bool>;

/// The fewest bytes that the salt of a hash may have.
pub const MIN_SALT_BYTES: usize = 8;

/// The number of bytes that `s` takes in UTF-8.
pub open spec fn byte_len(s: Seq<char>) -> nat {
    encode_utf8(s).len()
}

/// Whether a password can be hashed under a salt: the salt has at least
/// eight bytes, and neither has more than the 32 bits of a length can count.
pub open spec fn hashable(pwd: Seq<char>, salt: Seq<char>) -> bool {
    &&& byte_len(pwd) <= u32::MAX
    &&& MIN_SALT_BYTES <= byte_len(salt) <= u32::MAX
}

/// The head of every hash encoded under the default configuration: variant,
/// version and the three cost parameters.
pub open spec fn default_cost_head() -> Seq<char> {
    "$argon2i$v=19$m=4096,t=3,p=1$"@
}

/// Whether an encoded hash names the default variant, version and costs.
pub open spec fn has_default_cost(encoded: Seq<char>) -> bool {
    &&& encoded.len() >= default_cost_head().len()
    &&& encoded.subrange(0, default_cost_head().len() as int) == default_cost_head()
}

/// Whether `secret` verifies against the encoded hash `hash`. A hash that
/// does not carry the default costs is never verified, and a failure of the
/// verification counts as a mismatch.
pub open spec fn verifies(hash: Seq<char>, secret: Seq<char>) -> bool {
    has_default_cost(hash) && argon2_verify_encoded(hash, secret) == Some(true)
}

/// Calls `argon2::hash_encoded` with the bytes of `pwd` and `salt` and the
/// crate's default configuration. Under that configuration the call checks
/// the lengths of its two inputs and nothing else, so it fails exactly
/// where they are not [`hashable`]. The hash itself is only named: the same
/// password and salt always give the same one. Two more things are taken
/// from the crate: its encoder writes the variant, the version and the
/// costs of the configuration at the head of the hash, and, as its
/// documentation shows, `argon2::verify_encoded` confirms the password
/// against the hash that was made of it.
#[verifier::external_body]
fn hash_encoded(pwd: &str, salt: &str) -> (r: Result<String, argon2::Error>)
    ensures
        r is Ok <==> hashable(pwd@, salt@),
        match r {
            Ok(h) => argon2_hash_encoded(pwd@, salt@) == Some(h@),
            Err(_) => argon2_hash_encoded(pwd@, salt@) is None,
        },
        r matches Ok(h) ==> has_default_cost(h@),
        r matches Ok(h) ==> argon2_verify_encoded(h@, pwd@) == Some(true),
{
    argon2::hash_encoded(pwd.as_bytes(), salt.as_bytes(), &argon2::Config::default())
}

/// Calls `argon2::verify_encoded` with `encoded` and the bytes of `pwd`.
/// The call recomputes the hash at the costs that `encoded` names, so it is
/// only made on hashes that name the default costs; the contract names the
/// result.
#[verifier::external_body]
fn verify_encoded(encoded: &str, pwd: &str) -> (r: Result<bool, argon2::Error>)
    requires
        has_default_cost(encoded@),
    ensures
        match r {
            Ok(b) => argon2_verify_encoded(encoded@, pwd@) == Some(b),
            Err(_) => argon2_verify_encoded(encoded@, pwd@) is None,
        },
{
    argon2::verify_encoded(encoded, pwd.as_bytes())
}

/// Turns the outcome of hashing into the registry's terms: any failure is
/// an unhashable key.
pub fn hashed(outcome: Result<String, argon2::Error>) -> (r: Result<String, Rejections>)
    ensures
        match outcome {
            Ok(h) => r == Ok::<String, Rejections>(h),
            Err(_) => r == Err::<String, Rejections>(Rejections::UnhashableKey),
        },
{
    match outcome {
        Ok(h) => Ok(h),
        Err(_) => Err(Rejections::UnhashableKey),
    }
}

/// What comes of verifying a secret against a hash.
#[derive(Debug, Clone, Copy, PartialEq, Eq, Structural)]
pub enum Verification {
    /// The secret is the one that the hash was made of.
    Match,
    /// The secret is another one.
    Mismatch,
    /// The hash could not be verified against: it does not name the
    /// default costs, or the verifier failed on it.
    Failure,
}

/// What the answer of the verifier amounts to.
pub open spec fn verification_of(answer: Option<bool>) -> Verification {
    match answer {
        Some(true) => Verification::Match,
        Some(false) => Verification::Mismatch,
        None => Verification::Failure,
    }
}

/// What comes of verifying `secret` against the encoded hash `hash`: a
/// failure where the hash does not name the default costs, else what the
/// answer of the verifier amounts to.
pub open spec fn examined(hash: Seq<char>, secret: Seq<char>) -> Verification {
    if has_default_cost(hash) {
        verification_of(argon2_verify_encoded(hash, secret))
    } else {
        Verification::Failure
    }
}

/// Reads the answer of the verifier: a match, a mismatch, or a failure.
pub fn verified(outcome: Result<bool, argon2::Error>) -> (v: Verification)
    ensures
        v == match outcome {
            Ok(true) => Verification::Match,
            Ok(false) => Verification::Mismatch,
            Err(_) => Verification::Failure,
        },
{
    match outcome {
        Ok(true) => Verification::Match,
        Ok(false) => Verification::Mismatch,
        Err(_) => Verification::Failure,
    }
}

/// Decides whether `encoded` names the default variant, version and costs.
pub fn names_default_cost(encoded: &str) -> (b: bool)
    ensures
        b == has_default_cost(encoded@),
{
    let head = "$argon2i$v=19$m=4096,t=3,p=1$";
    proof {
        reveal_strlit("$argon2i$v=19$m=4096,t=3,p=1$");
    }
    let n = head.unicode_len();
    if encoded.unicode_len() < n {
        return false;
    }
    let start = encoded.substring_char(0, n).to_owned();
    let want = head.to_owned();
    start == want
}

/// Hashes `secret`, salted with the process-wide secret. The hash names
/// the default costs, and `secret` verifies against it.
pub fn hash(secret: &str, process_secret: &str) -> (r: Result<String, Rejections>)
    ensures
        r is Ok <==> hashable(secret@, process_secret@),
        match r {
            Ok(h) => {
                &&& argon2_hash_encoded(secret@, process_secret@) == Some(h@)
                &&& has_default_cost(h@)
                &&& verifies(h@, secret@)
            },
            Err(e) => e == Rejections::UnhashableKey && argon2_hash_encoded(
                secret@,
                process_secret@,
            ) is None,
        },
{
    hashed(hash_encoded(secret, process_secret))
}

/// Examines `secret` against the encoded hash `hash`, and tells a match, a
/// mismatch and a failure apart.
pub fn examine(hash: &str, secret: &str) -> (v: Verification)
    ensures
        v == examined(hash@, secret@),
{
    if !names_default_cost(hash) {
        return Verification::Failure;
    }
    verified(verify_encoded(hash, secret))
}

/// Verifies `secret` against the encoded hash `hash`: only a match counts.
pub fn verify(hash: &str, secret: &str) -> (b: bool)
    ensures
        b == verifies(hash@, secret@),
        b == (examined(hash@, secret@) is Match),
{
    match examine(hash, secret) {
        Verification::Match => true,
        _ => false,
    }
}

} // verus!
