use vstd::prelude::*;

verus! {

/// bcrypt's error type, carried opaquely.
#[verifier::external_type_specification]
#[verifier::external_body]
pub struct ExBcryptError(bcrypt::BcryptError);

/// The cost factor with which passwords are hashed (bcrypt's `DEFAULT_COST`).
pub const HASH_COST: u32 = 12;

/// The decimal digit `d` (0 to 9) as a character.
pub open spec fn digit_char(d: int) -> char {
    (48 + d) as char
}

/// How a bcrypt hash made with `cost` (4 to 31) begins: "$2b$", the cost in
/// two digits, and "$".
pub open spec fn bcrypt_header(cost: u32) -> Seq<char> {
    seq!['$', '2', 'b', '$', digit_char((cost / 10) as int), digit_char((cost % 10) as int), '$']
}

/// What `bcrypt::verify` answers for a password and a stored hash: `Some`
/// of whether they match, or `None` where the hash is not a bcrypt hash.
pub uninterp spec fn bcrypt_verdict(password: Seq<char>, hash: Seq<char>) -> Option<bool>;

/// `bcrypt::verify(password, hash)`.  Its answer is named `bcrypt_verdict`.
#[verifier::external_body]
fn bcrypt_verify(password: &str, hash: &str) -> (r: Result<bool, bcrypt::BcryptError>)
    ensures
        r is Ok <==> bcrypt_verdict(password@, hash@) is Some,
        r matches Ok(b) ==> bcrypt_verdict(password@, hash@) == Some(b),
{
    bcrypt::verify(password, hash)
}

/// `bcrypt::hash(password, cost)`.  The salt is drawn from the operating
/// system, so the hash itself is left open; bcrypt's source recomputes the
/// same salted hash on `verify`, so a hash that comes back verifies against
/// the password it was made from.  The hash is written as 60 ASCII
/// characters, "$2b$", the cost in two digits, "$", then the salt and the
/// hash in bcrypt's base 64 (`HashParts::write_for_version`).  It fails for a
/// cost outside 4 to 31 and when the system has no randomness to give, which
/// is not stated.
#[verifier::external_body]
fn bcrypt_hash(password: &str, cost: u32) -> (r: Result<String, bcrypt::BcryptError>)
    ensures
        r matches Ok(h) ==> bcrypt_verdict(password@, h@) == Some(true),
        r matches Ok(h) ==> h@.len() == 60 && h@.subrange(0, 7) == bcrypt_header(cost),
        !(4 <= cost <= 31) ==> r is Err,
{
    bcrypt::hash(password, cost)
}

/// Why a password could not be stored.
#[derive(Debug, Clone, Copy, PartialEq, Eq, Structural)]
pub enum PasswordError {
    /// bcrypt could not hash it.
    HashingFailed,
}

/// Whether `password` matches the stored `hash`; a hash that bcrypt cannot
/// read matches nothing.
pub open spec fn password_accepted(password: Seq<char>, hash: Seq<char>) -> bool {
    bcrypt_verdict(password, hash) == Some(true)
}

/// Checks a password against a stored bcrypt hash, as login does.
pub fn password_matches(password: &str, hash: &str) -> (ok: bool)
    ensures
        ok == password_accepted(password@, hash@),
{
    match bcrypt_verify(password, hash) {
        Ok(b) => b,
        Err(_) => false,
    }
}

/// How the stored form of a password looks: a 60-character bcrypt hash
/// of cost `HASH_COST`, that is beginning with "$2b$12$".
pub open spec fn is_stored_hash(h: Seq<char>) -> bool {
    h.len() == 60 && h.subrange(0, 7) == "$2b$12$"@
}

/// The bcrypt hash, of cost `HASH_COST`, under which `password` is stored.
pub fn hash_password(password: &str) -> (r: Result<String, PasswordError>)
    ensures
        r matches Ok(h) ==> password_accepted(password@, h@) && is_stored_hash(h@),
        r matches Err(e) ==> e == PasswordError::HashingFailed,
{
    match bcrypt_hash(password, HASH_COST) {
        Ok(h) => {
            proof {
                reveal_strlit("$2b$12$");
                assert(bcrypt_header(HASH_COST) =~= "$2b$12$"@);
            }
            Ok(h)
        },
        Err(_) => Err(PasswordError::HashingFailed),
    }
}

} // verus!
