use vstd::prelude::*;

verus! {

/// Whether a password fits a bcrypt digest: `Some(true)` where it does,
/// `Some(false)` where it does not, `None` where the digest cannot be read.
pub uninterp spec fn password_check(password: Seq<char>, digest: Seq<char>) -> Option<bool>;

/// `bcrypt::hash` at the default cost: a digest of the password with a salt
/// drawn at random, or `None` for any error of the hasher. Two calls on one
/// password give different digests, so the digest has no name; what holds of
/// every digest is that the password fits it, since `bcrypt::verify` hashes
/// the password again with the salt and the cost that the digest carries.
#[verifier::external_body]
pub(crate) fn hash_password(password: &str) -> (digest: Option<String>)
    ensures
        digest matches Some(d) ==> password_check(password@, d@) == Some(true),
{
    bcrypt::hash(password, bcrypt::DEFAULT_COST).ok()
}

/// `bcrypt::verify`: whether the password fits the digest. The answer depends
/// on the two texts alone; `None` stands for any error of the check.
#[verifier::external_body]
pub(crate) fn verify_password(password: &str, digest: &str) -> (r: Option<bool>)
    ensures
        r == password_check(password@, digest@),
{
    bcrypt::verify(password, digest).ok()
}

} // verus!
