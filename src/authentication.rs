//! Credential store: memory-hard password hashing and verification.
//!
//! Hashes are self-describing PHC strings (`$argon2id$v=19$m=…,t=…,p=…$salt$hash`)
//! that embed the algorithm, the salt and the cost parameters.
use argon2::password_hash::{PasswordHash, PasswordHasher, PasswordVerifier, SaltString};
use argon2::{Algorithm, Argon2, Params, Version};
use rand::rngs::OsRng;
use vstd::prelude::*;
use vstd::string::StringSliceAdditionalSpecFns;

verus! {

/// Memory cost of the key derivation, in KiB.
pub const KDF_MEMORY_KIB: u32 = 4096;

/// Number of passes of the key derivation.
pub const KDF_ITERATIONS: u32 = 3;

/// Degree of parallelism of the key derivation.
pub const KDF_PARALLELISM: u32 = 1;

/// Why a credential operation failed.
#[derive(Debug, Clone, Copy, PartialEq, Eq, Structural)]
pub enum CredentialError {
    /// The key derivation refused its configuration or its inputs.
    ConfigurationError,
    /// The stored hash is not a well-formed PHC string.
    MalformedHash,
}

/// The Argon2id (version 0x13) PHC string of `password` under `salt` (in its
/// B64 form) with the given memory, time and parallelism costs, or `None`
/// where Argon2 refuses these inputs.
pub uninterp spec fn argon2id_hash(
    password: Seq<u8>,
    salt: Seq<char>,
    memory_kib: u32,
    iterations: u32,
    parallelism: u32,
) -> Option<Seq<char>>;

/// Whether Argon2 takes `salt` as a salt: B64 text that decodes to enough
/// bytes.
pub uninterp spec fn argon2_accepts_salt(salt: Seq<char>) -> bool;

/// Argon2's verdict on `password` against the PHC string `hash`: `None` when
/// the string does not parse, else whether the password re-derives the hash.
pub uninterp spec fn argon2_verdict(hash: Seq<char>, password: Seq<u8>) -> Option<bool>;

/// The cost parameters that argon2's `Params::new` accepts.
pub open spec fn argon2_params_valid(memory_kib: u32, iterations: u32, parallelism: u32) -> bool {
    &&& memory_kib >= 8
    &&& memory_kib >= 8 * parallelism
    &&& iterations >= 1
    &&& 1 <= parallelism <= 0xFFFFFF
}

/// The character of a decimal digit.
pub open spec fn digit_char(d: nat) -> char
    recommends
        d < 10,
{
    seq!['0', '1', '2', '3', '4', '5', '6', '7', '8', '9'][d as int]
}

/// The decimal notation of `n`, without leading zeros.
pub open spec fn decimal(n: nat) -> Seq<char>
    decreases n,
{
    if n < 10 {
        seq![digit_char(n)]
    } else {
        decimal(n / 10) + seq![digit_char(n % 10)]
    }
}

/// What a PHC string of this configuration starts with:
/// `$argon2id$v=19$m=<memory>,t=<iterations>,p=<parallelism>$`.
pub open spec fn phc_head(memory_kib: u32, iterations: u32, parallelism: u32) -> Seq<char> {
    seq!['$', 'a', 'r', 'g', 'o', 'n', '2', 'i', 'd', '$', 'v', '=', '1', '9', '$', 'm', '=']
        + decimal(memory_kib as nat) + seq![',', 't', '='] + decimal(iterations as nat) + seq![
        ',',
        'p',
        '=',
    ] + decimal(parallelism as nat) + seq!['$']
}

/// `hash` is a PHC string of this configuration whose salt field is `salt`,
/// a salt without any `$` separator in it.
pub open spec fn phc_with_salt(
    hash: Seq<char>,
    salt: Seq<char>,
    memory_kib: u32,
    iterations: u32,
    parallelism: u32,
) -> bool {
    &&& forall|i: int| 0 <= i < salt.len() ==> salt[i] != '$'
    &&& exists|tail: Seq<char>|
        hash == phc_head(memory_kib, iterations, parallelism) + salt + seq!['$'] + tail
}

/// The hash of `password` under `salt` with this library's fixed configuration.
pub open spec fn stored_hash_of(password: Seq<u8>, salt: Seq<char>) -> Option<Seq<char>> {
    argon2id_hash(password, salt, KDF_MEMORY_KIB, KDF_ITERATIONS, KDF_PARALLELISM)
}

/// Relies on password_hash::SaltString::generate with rand's OsRng: a fresh
/// random salt, the B64 form of 16 random bytes, which Argon2 takes.
#[verifier::external_body]
fn random_salt() -> (r: String)
    ensures
        argon2_accepts_salt(r@),
{
    SaltString::generate(&mut OsRng).as_str().to_string()
}

/// Relies on argon2's Params::new and Argon2::hash_password for Argon2id
/// version 0x13 with the given costs, rendered as a PHC string. It succeeds
/// for valid costs, a salt that Argon2 takes and a password of at most
/// `u32::MAX` bytes.
#[verifier::external_body]
fn argon2id_phc(
    password: &[u8],
    salt: &str,
    memory_kib: u32,
    iterations: u32,
    parallelism: u32,
) -> (r: Option<String>)
    requires
        parallelism <= 0x1FFFFFFF,
    ensures
        match r {
            Some(hash) => argon2id_hash(password@, salt@, memory_kib, iterations, parallelism)
                == Some(hash@),
            None => argon2id_hash(password@, salt@, memory_kib, iterations, parallelism) is None,
        },
        argon2_params_valid(memory_kib, iterations, parallelism) && argon2_accepts_salt(salt@)
            && password@.len() <= u32::MAX ==> r is Some,
        !argon2_params_valid(memory_kib, iterations, parallelism) || password@.len() > u32::MAX
            ==> r is None,
        r is Some ==> argon2_accepts_salt(salt@),
        r matches Some(hash) ==> phc_with_salt(hash@, salt@, memory_kib, iterations, parallelism),
{
    let params = Params::new(memory_kib, iterations, parallelism, None).ok()?;
    let salt = SaltString::from_b64(salt).ok()?;
    let hasher = Argon2::new(Algorithm::Argon2id, Version::V0x13, params);
    match hasher.hash_password(password, &salt) {
        Ok(hash) => Some(hash.to_string()),
        Err(_) => None,
    }
}

/// Relies on password_hash::PasswordHash::new to parse the PHC string, and on
/// Argon2's PasswordVerifier::verify_password, which re-derives the hash with
/// the algorithm, salt and costs that the string embeds. Whether the string
/// parses does not depend on the password, and every string that Argon2
/// wrote parses.
#[verifier::external_body]
fn argon2_verify(hash: &str, password: &[u8]) -> (r: Option<bool>)
    ensures
        r == argon2_verdict(hash@, password@),
        forall|other: Seq<u8>| (#[trigger] argon2_verdict(hash@, other)) is Some == r is Some,
        forall|salt: Seq<char>, memory_kib: u32, iterations: u32, parallelism: u32|
            #[trigger] argon2id_hash(password@, salt, memory_kib, iterations, parallelism) == Some(
                hash@,
            ) ==> r == Some(true),
        forall|
            made_from: Seq<u8>,
            salt: Seq<char>,
            memory_kib: u32,
            iterations: u32,
            parallelism: u32,
        |
            #[trigger] argon2id_hash(made_from, salt, memory_kib, iterations, parallelism) == Some(
                hash@,
            ) ==> r is Some,
{
    match PasswordHash::new(hash) {
        Ok(parsed) => Some(Argon2::default().verify_password(password, &parsed).is_ok()),
        Err(_) => None,
    }
}

/// Hashes `password` under a fresh random salt; returns the PHC string and
/// the salt. It succeeds for every password that Argon2 takes, that is of at
/// most `u32::MAX` bytes.
pub fn hash_password(password: &str) -> (r: Result<(String, String), CredentialError>)
    ensures
        r is Ok <==> password.spec_bytes().len() <= u32::MAX,
        match r {
            Ok((hash, salt)) => stored_hash_of(password.spec_bytes(), salt@) == Some(hash@)
                && phc_with_salt(hash@, salt@, KDF_MEMORY_KIB, KDF_ITERATIONS, KDF_PARALLELISM),
            Err(e) => e == CredentialError::ConfigurationError,
        },
{
    let salt = random_salt();
    match hash_password_with_salt(password, salt.as_str()) {
        Ok(hash) => Ok((hash, salt)),
        Err(e) => Err(e),
    }
}

/// Hashes `password` under the given B64 `salt`.
pub fn hash_password_with_salt(password: &str, salt: &str) -> (r: Result<String, CredentialError>)
    ensures
        match r {
            Ok(hash) => stored_hash_of(password.spec_bytes(), salt@) == Some(hash@)
                && phc_with_salt(hash@, salt@, KDF_MEMORY_KIB, KDF_ITERATIONS, KDF_PARALLELISM),
            Err(e) => e == CredentialError::ConfigurationError && stored_hash_of(
                password.spec_bytes(),
                salt@,
            ) is None,
        },
        argon2_accepts_salt(salt@) && password.spec_bytes().len() <= u32::MAX ==> r is Ok,
        password.spec_bytes().len() > u32::MAX ==> r is Err,
{
    assert(argon2_params_valid(KDF_MEMORY_KIB, KDF_ITERATIONS, KDF_PARALLELISM));
    match argon2id_phc(
        password.as_bytes(),
        salt,
        KDF_MEMORY_KIB,
        KDF_ITERATIONS,
        KDF_PARALLELISM,
    ) {
        Some(hash) => Ok(hash),
        None => Err(CredentialError::ConfigurationError),
    }
}

/// Checks `password` against the stored PHC string `hashed_password`: `Ok`
/// with the verdict, or `MalformedHash` when the string does not parse. The
/// salt is read from the PHC string itself, so `_salt` is not consulted.
///
/// A hash that this library made is never reported malformed, whatever
/// password is checked against it, and it verifies the password it was
/// made from.
pub fn verify_password(hashed_password: &str, _salt: &str, password: &str) -> (r: Result<
    bool,
    CredentialError,
>)
    ensures
        match argon2_verdict(hashed_password@, password.spec_bytes()) {
            Some(verdict) => r == Ok::<bool, CredentialError>(verdict),
            None => r == Err::<bool, CredentialError>(CredentialError::MalformedHash),
        },
        forall|salt: Seq<char>|
            #[trigger] stored_hash_of(password.spec_bytes(), salt) == Some(hashed_password@) ==> r
                == Ok::<bool, CredentialError>(true),
        forall|made_from: Seq<u8>, salt: Seq<char>|
            #[trigger] stored_hash_of(made_from, salt) == Some(hashed_password@) ==> r is Ok,
{
    match argon2_verify(hashed_password, password.as_bytes()) {
        Some(verdict) => Ok(verdict),
        None => Err(CredentialError::MalformedHash),
    }
}

/// Hashing is reproducible: the same password under the same salt and the
/// same configuration gives the same PHC string every time.
pub proof fn lemma_hashing_is_deterministic(
    password: Seq<u8>,
    salt: Seq<char>,
    first: Seq<char>,
    second: Seq<char>,
)
    requires
        stored_hash_of(password, salt) == Some(first),
        stored_hash_of(password, salt) == Some(second),
    ensures
        first == second,
{
}

/// Hashes under different salts differ: the salt is a field of the PHC
/// string, so two hashes with distinct salts are distinct strings.
pub proof fn lemma_distinct_salts_give_distinct_hashes(
    first: Seq<char>,
    first_salt: Seq<char>,
    second: Seq<char>,
    second_salt: Seq<char>,
)
    requires
        phc_with_salt(first, first_salt, KDF_MEMORY_KIB, KDF_ITERATIONS, KDF_PARALLELISM),
        phc_with_salt(second, second_salt, KDF_MEMORY_KIB, KDF_ITERATIONS, KDF_PARALLELISM),
        first_salt != second_salt,
    ensures
        first != second,
{
    let head = phc_head(KDF_MEMORY_KIB, KDF_ITERATIONS, KDF_PARALLELISM);
    let t1 = choose|tail: Seq<char>| first == head + first_salt + seq!['$'] + tail;
    let t2 = choose|tail: Seq<char>| second == head + second_salt + seq!['$'] + tail;
    if first == second {
        let n = head.len();
        if first_salt.len() == second_salt.len() {
            assert forall|i: int| 0 <= i < first_salt.len() implies first_salt[i]
                == second_salt[i] by {
                assert(first[n + i] == first_salt[i]);
                assert(second[n + i] == second_salt[i]);
            }
            assert(first_salt =~= second_salt);
        } else if first_salt.len() < second_salt.len() {
            let k = first_salt.len() as int;
            assert(first[n + k] == '$');
            assert(second[n + k] == second_salt[k]);
        } else {
            let k = second_salt.len() as int;
            assert(second[n + k] == '$');
            assert(first[n + k] == first_salt[k]);
        }
    }
}

} // verus!
