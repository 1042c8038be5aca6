use argon2::password_hash::rand_core::{OsRng, RngCore};
use argon2::password_hash::{PasswordHash, PasswordHasher, PasswordVerifier, Salt, SaltString};
use argon2::Argon2;
use vstd::prelude::*;
use vstd::slice::slice_to_vec;
use vstd::string::*;

verus! {

#[verifier::external_type_specification]
#[verifier::external_body]
pub struct ExArgon2<'k>(Argon2<'k>);

#[verifier::external_type_specification]
#[verifier::external_body]
pub struct ExArgon2Error(argon2::Error);

#[verifier::external_type_specification]
#[verifier::external_body]
pub struct ExPasswordHash<'a>(PasswordHash<'a>);

#[verifier::external_type_specification]
#[verifier::external_body]
pub struct ExPasswordHashError(argon2::password_hash::Error);

/// The longest secret that Argon2 takes, in bytes.
pub open spec fn max_secret_len() -> int {
    0xFFFF_FFFF
}

/// Whether `password_hash::PasswordHash::new` accepts the text `s` as a
/// PHC hash string.
pub uninterp spec fn phc_string_parses(s: Seq<char>) -> bool;

/// Whether Argon2 with the secret `secret` accepts the UTF-8 bytes of
/// `password` against the PHC string `phc`: `PasswordVerifier::verify_password`
/// recomputes the hash with the algorithm, version, parameters and salt
/// that `phc` records and compares the output.
pub uninterp spec fn argon2_verifies(secret: Seq<u8>, password: Seq<char>, phc: Seq<char>) -> bool;

/// Calls `argon2::Argon2::new_with_secret` with the default algorithm
/// (Argon2id), version and parameters. Its source refuses a secret longer
/// than `u32::MAX` bytes and accepts every other one; what the instance
/// holds is not stated.
#[verifier::external_body]
fn argon2_new_with_secret<'k>(secret: &'k [u8]) -> (r: Result<Argon2<'k>, argon2::Error>)
    ensures
        r is Ok <==> secret@.len() <= max_secret_len(),
{
    Argon2::new_with_secret(secret, Default::default(), Default::default(), Default::default())
}

/// Calls `password_hash::PasswordHash::new`: whether it succeeds is a
/// function of the text alone, and the empty text is refused (its source
/// returns `Error::PhcStringField` for it). The parsed fields are not
/// stated.
#[verifier::external_body]
fn password_hash_new<'a>(s: &'a str) -> (r: Result<PasswordHash<'a>, argon2::password_hash::Error>)
    ensures
        (r is Ok) == phc_string_parses(s@),
        s@.len() == 0 ==> r is Err,
{
    PasswordHash::new(s)
}

/// Calls `PasswordVerifier::verify_password` on an Argon2 instance with
/// the secret `secret` (default algorithm, version and parameters; the
/// check itself takes them from the stored hash), the UTF-8 bytes of
/// `password`, and `phc` parsed by `PasswordHash::new`. Where `phc`
/// parses, the outcome is `argon2_verifies`; otherwise nothing is stated.
#[verifier::external_body]
fn argon2_verify_password(secret: &[u8], password: &str, phc: &str) -> (r: bool)
    requires
        secret@.len() <= max_secret_len(),
    ensures
        phc_string_parses(phc@) ==> r == argon2_verifies(secret@, password@, phc@),
{
    let argon2 = match Argon2::new_with_secret(secret, Default::default(), Default::default(), Default::default()) {
        Ok(a) => a,
        Err(_) => return false,
    };
    match PasswordHash::new(phc) {
        Ok(hash) => argon2.verify_password(password.as_bytes(), &hash).is_ok(),
        Err(_) => false,
    }
}

/// Calls `RngCore::try_fill_bytes` on the operating system's random
/// number generator for a salt of `Salt::RECOMMENDED_LENGTH` (16) bytes.
/// `None` where the generator fails; the bytes themselves are random and
/// not stated.
#[verifier::external_body]
fn os_random_salt() -> (r: Option<Vec<u8>>)
    ensures
        r matches Some(b) ==> b@.len() == 16,
{
    let mut bytes = vec![0u8; Salt::RECOMMENDED_LENGTH];
    match OsRng.try_fill_bytes(&mut bytes) {
        Ok(()) => Some(bytes),
        Err(_) => None,
    }
}

/// Calls `PasswordHasher::hash_password` on an Argon2 instance with the
/// secret `secret` (default algorithm, version and parameters), for the
/// UTF-8 bytes of `password` and the salt `salt` (encoded by
/// `SaltString::encode_b64`), and renders the hash as its PHC string.
/// The text parses again and checks out for the same secret and
/// password, since checking recomputes the hash with the recorded
/// algorithm, version, parameters and salt. With the default parameters
/// and a 16-byte salt, the source refuses only a password longer than
/// `u32::MAX` bytes. The hash output itself is not stated.
#[verifier::external_body]
fn argon2_hash_password(secret: &[u8], password: &str, salt: &[u8]) -> (r: Option<String>)
    ensures
        r matches Some(s) ==> phc_string_parses(s@) && argon2_verifies(secret@, password@, s@),
        secret@.len() <= max_secret_len() && salt@.len() == 16 && password.spec_bytes().len()
            <= 0xFFFF_FFFF ==> r is Some,
{
    let argon2 = match Argon2::new_with_secret(secret, Default::default(), Default::default(), Default::default()) {
        Ok(a) => a,
        Err(_) => return None,
    };
    let salt = match SaltString::encode_b64(salt) {
        Ok(s) => s,
        Err(_) => return None,
    };
    match argon2.hash_password(password.as_bytes(), &salt) {
        Ok(h) => Some(h.to_string()),
        Err(_) => None,
    }
}

/// Why a password could not be checked or hashed.
#[derive(Clone, Copy, Debug, PartialEq, Eq, Structural)]
pub enum PasswordError {
    SecretTooLong,
    InvalidHash,
    RandomSource,
    Hashing,
}

/// The Argon2 hasher that checks and hashes passwords: Argon2id with the
/// default version and parameters, and a secret (the pepper) that Argon2
/// accepts.
pub struct Argon2Instance {
    secret: Vec<u8>,
}

impl Argon2Instance {
    #[verifier::type_invariant]
    spec fn secret_fits(self) -> bool {
        self.secret@.len() <= max_secret_len()
    }
}

impl View for Argon2Instance {
    type V = Seq<u8>;

    /// The secret.
    closed spec fn view(&self) -> Seq<u8> {
        self.secret@
    }
}

/// The outcome of checking `password` against the stored text `hash`
/// with the secret `secret`.
pub open spec fn password_check(secret: Seq<u8>, password: Seq<char>, hash: Seq<char>) -> Result<
    bool,
    PasswordError,
> {
    if phc_string_parses(hash) {
        Ok(argon2_verifies(secret, password, hash))
    } else {
        Err(PasswordError::InvalidHash)
    }
}

/// Whether `hash` is a stored hash under which `password` checks out
/// with the secret `secret`.
pub open spec fn hash_admits(secret: Seq<u8>, password: Seq<char>, hash: Seq<char>) -> bool {
    phc_string_parses(hash) && argon2_verifies(secret, password, hash)
}

/// The Argon2 hasher with `pepper` as its secret; refused where the pepper
/// is longer than Argon2 allows.
pub fn get_argon2_instance(pepper: &[u8]) -> (r: Result<Argon2Instance, PasswordError>)
    ensures
        r is Ok <==> pepper@.len() <= max_secret_len(),
        r matches Ok(a) ==> a@ == pepper@,
        r is Err ==> r->Err_0 == PasswordError::SecretTooLong,
{
    match argon2_new_with_secret(pepper) {
        Ok(_) => Ok(Argon2Instance { secret: slice_to_vec(pepper) }),
        Err(_) => Err(PasswordError::SecretTooLong),
    }
}

/// Checks `password` against the stored PHC string `hash`: `Ok(true)`
/// where it matches, `Ok(false)` where it does not, and `InvalidHash`
/// where the stored text is no PHC string.
pub fn verify_password(argon2: &Argon2Instance, password: &str, hash: &str) -> (r: Result<
    bool,
    PasswordError,
>)
    ensures
        r == password_check(argon2@, password@, hash@),
{
    proof {
        use_type_invariant(argon2);
    }
    match password_hash_new(hash) {
        Ok(_) => Ok(argon2_verify_password(argon2.secret.as_slice(), password, hash)),
        Err(_) => Err(PasswordError::InvalidHash),
    }
}

/// Hashes `password` with a fresh random salt into a PHC string under
/// which the password checks out. It fails only where the system's random
/// source fails, or where the password is longer than `u32::MAX` bytes.
pub fn hash_password(argon2: &Argon2Instance, password: &str) -> (r: Result<String, PasswordError>)
    ensures
        r matches Ok(s) ==> hash_admits(argon2@, password@, s@),
        r is Err ==> r->Err_0 == PasswordError::RandomSource || r->Err_0 == PasswordError::Hashing,
        r == Err::<String, PasswordError>(PasswordError::Hashing) ==> password.spec_bytes().len()
            > 0xFFFF_FFFF,
{
    proof {
        use_type_invariant(argon2);
    }
    let salt = match os_random_salt() {
        Some(b) => b,
        None => {
            return Err(PasswordError::RandomSource);
        },
    };
    match argon2_hash_password(argon2.secret.as_slice(), password, salt.as_slice()) {
        Some(s) => Ok(s),
        None => Err(PasswordError::Hashing),
    }
}

/// A hash made for a password checks out for that password: what
/// `hash_password` returns, `verify_password` accepts.
pub proof fn lemma_hash_then_check(secret: Seq<u8>, password: Seq<char>, hash: Seq<char>)
    requires
        hash_admits(secret, password, hash),
    ensures
        password_check(secret, password, hash) == Ok::<bool, PasswordError>(true),
{
}

} // verus!
