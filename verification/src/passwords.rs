//! Password hashing with Argon2 in its default configuration: a fresh
//! random salt for every hash, stored with the parameters in a PHC string.
use vstd::prelude::*;
use vstd::utf8::encode_utf8;

verus! {

#[verifier::external_type_specification]
#[verifier::external_body]
pub struct ExPasswordHashError(password_hash::Error);

/// The number of random bytes in a salt: the recommended salt length of
/// the PHC string format.
pub const SALT_BYTES: usize = 16;

/// The longest password, in bytes, that Argon2 takes.
pub const MAX_PASSWORD_BYTES: u64 = 0xFFFF_FFFF;

/// The PHC string `Argon2::default()` makes of a password and a salt
/// (given as its bytes, written into the string in unpadded B64).
pub uninterp spec fn argon2_phc(password: Seq<u8>, salt: Seq<u8>) -> Seq<char>;

/// Whether `Argon2::default()` accepts `password` against the PHC string
/// `phc`: the string is read, and the password hashed again with the
/// algorithm, salt and parameters it names gives the hash it holds.
pub uninterp spec fn argon2_accepts(phc: Seq<char>, password: Seq<u8>) -> bool;

/// Whether `phc` is the default Argon2 hash of `password` under some
/// salt of the kind made here.
pub open spec fn hashes(phc: Seq<char>, password: Seq<u8>) -> bool {
    exists|s: Seq<u8>|
        s.len() == SALT_BYTES && password.len() <= MAX_PASSWORD_BYTES && phc == #[trigger] argon2_phc(
            password,
            s,
        )
}

/// The operating system's random source filling the bytes of a salt, as
/// `SaltString::generate` does. Which bytes come out is chance.
#[verifier::external_body]
fn random_salt_bytes() -> (b: Vec<u8>)
    ensures
        b@.len() == SALT_BYTES,
{
    let mut bytes = vec![0u8; password_hash::Salt::RECOMMENDED_LENGTH];
    password_hash::rand_core::RngCore::fill_bytes(&mut password_hash::rand_core::OsRng, &mut bytes);
    bytes
}

/// `PasswordHasher::hash_password` of `Argon2::default()` on the salt
/// with the given bytes (`SaltString::encode_b64`), as a PHC string. What
/// it computes is named. The source fails on a password longer than
/// `u32::MAX` bytes, and otherwise only where the salt is beyond 48 bytes
/// or shorter than 8, so with a salt of the length used here and a
/// password of at most that length it succeeds.
#[verifier::external_body]
fn argon2_hash(password: &[u8], salt: &[u8]) -> (r: Result<String, password_hash::Error>)
    ensures
        r matches Ok(h) ==> h@ == argon2_phc(password@, salt@),
        r is Ok ==> password@.len() <= MAX_PASSWORD_BYTES,
        salt@.len() == SALT_BYTES && password@.len() <= MAX_PASSWORD_BYTES ==> r is Ok,
{
    let salt = password_hash::SaltString::encode_b64(salt)?;
    let hash = argon2::PasswordHasher::hash_password(&argon2::Argon2::default(), password, &salt)?;
    Ok(hash.to_string())
}

/// `PasswordHash::new` then `PasswordVerifier::verify_password` of
/// `Argon2::default()`: the PHC string is read and the password hashed
/// again with the salt and parameters it names. Whether it accepts is
/// named; a string the default hasher made of this very password is
/// accepted.
#[verifier::external_body]
fn argon2_verify(password: &[u8], phc: &str) -> (r: Result<(), password_hash::Error>)
    ensures
        r is Ok <==> argon2_accepts(phc@, password@),
        hashes(phc@, password@) ==> r is Ok,
{
    let parsed = password_hash::PasswordHash::new(phc)?;
    argon2::PasswordVerifier::verify_password(&argon2::Argon2::default(), password, &parsed)
}

/// Hashes a password with a fresh random salt. Every password of at most
/// `u32::MAX` bytes is hashed.
pub fn hash_password(password: &str) -> (r: Result<String, password_hash::Error>)
    ensures
        r matches Ok(h) ==> hashes(h@, encode_utf8(password@)),
        encode_utf8(password@).len() <= MAX_PASSWORD_BYTES ==> r is Ok,
{
    let salt = random_salt_bytes();
    let bytes = password.as_bytes();
    proof {
        assert(bytes@ == encode_utf8(password@));
    }
    argon2_hash(bytes, salt.as_slice())
}

/// Checks a password against a stored PHC string: it passes exactly when
/// Argon2 accepts it, which it does against every hash made of it.
pub fn verify_password(password_hash_string: &str, input_password: &str) -> (r: Result<(), password_hash::Error>)
    ensures
        r is Ok <==> argon2_accepts(password_hash_string@, encode_utf8(input_password@)),
        hashes(password_hash_string@, encode_utf8(input_password@)) ==> r is Ok,
{
    let bytes = input_password.as_bytes();
    proof {
        assert(bytes@ == encode_utf8(input_password@));
    }
    argon2_verify(bytes, password_hash_string)
}

/// A password is accepted against every hash made of it.
pub proof fn lemma_hash_accepts_password(password: Seq<u8>, salt: Seq<u8>)
    requires
        salt.len() == SALT_BYTES,
        password.len() <= MAX_PASSWORD_BYTES,
    ensures
        hashes(argon2_phc(password, salt), password),
{
}

} // verus!
