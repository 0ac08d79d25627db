//! Authenticated public-key encryption of short text payloads.
//!
//! A ciphertext package is `nonce ‖ sealed box`: a fresh random nonce of
//! `NONCE_BYTES` bytes followed by the combined-mode output of crypto_box
//! (curve25519-xsalsa20-poly1305), which is `MAC_BYTES` longer than the
//! plaintext.
use sodiumoxide::crypto::box_;
use vstd::prelude::*;
use vstd::string::StringSliceAdditionalSpecFns;
use vstd::utf8::*;

verus! {

broadcast use vstd::utf8::encode_utf8_valid_utf8, vstd::utf8::encode_utf8_decode_utf8;

pub const PUBLIC_KEY_BYTES: usize = 32;

pub const SECRET_KEY_BYTES: usize = 32;

pub const NONCE_BYTES: usize = 24;

pub const MAC_BYTES: usize = 16;

/// Public half of a key pair; travels in cleartext with every envelope.
#[derive(Debug, Clone, Copy)]
pub struct PublicKey {
    pub bytes: [u8; PUBLIC_KEY_BYTES],
}

/// Secret half of a key pair; owned by its holder and never sent.
#[derive(Debug, Clone)]
pub struct SecretKey {
    pub bytes: [u8; SECRET_KEY_BYTES],
}

impl View for PublicKey {
    type V = Seq<u8>;

    open spec fn view(&self) -> Seq<u8> {
        self.bytes@
    }
}

impl View for SecretKey {
    type V = Seq<u8>;

    open spec fn view(&self) -> Seq<u8> {
        self.bytes@
    }
}

impl PublicKey {
    /// The key whose bytes are `bytes`, when there are exactly
    /// `PUBLIC_KEY_BYTES` of them.
    pub fn from_slice(bytes: &[u8]) -> (r: Option<PublicKey>)
        ensures
            match r {
                Some(key) => bytes@.len() == PUBLIC_KEY_BYTES && key@ == bytes@,
                None => bytes@.len() != PUBLIC_KEY_BYTES,
            },
    {
        if bytes.len() != PUBLIC_KEY_BYTES {
            return None;
        }
        let mut key = PublicKey { bytes: [0u8; PUBLIC_KEY_BYTES] };
        let mut i: usize = 0;
        while i < PUBLIC_KEY_BYTES
            invariant
                bytes@.len() == PUBLIC_KEY_BYTES,
                i <= PUBLIC_KEY_BYTES,
                forall|k: int| 0 <= k < i ==> key@[k] == bytes@[k],
            decreases PUBLIC_KEY_BYTES - i,
        {
            key.bytes[i] = bytes[i];
            i = i + 1;
        }
        assert(key@ =~= bytes@);
        Some(key)
    }
}

/// A public key paired with the secret key it belongs to.
pub type KeyPair = (PublicKey, SecretKey);

/// Why a ciphertext package could not be turned back into text.
#[derive(Debug, Clone, Copy, PartialEq, Eq, Structural)]
pub enum DecryptError {
    /// The input is shorter than a nonce.
    MalformedInput,
    /// The box was rejected: wrong keys, tampering or corruption.
    AuthenticationFailure,
    /// The box opened, but its content is not valid UTF-8.
    EncodingError,
}

/// The X25519 public key that belongs to a secret key (crypto_scalarmult_base).
pub uninterp spec fn public_key_of(secret: Seq<u8>) -> Seq<u8>;

/// The combined-mode crypto_box of `message` under `nonce`, sealed by the
/// holder of `sender_secret` for the holder of `recipient_public`.
pub uninterp spec fn sealed_box(
    message: Seq<u8>,
    nonce: Seq<u8>,
    recipient_public: Seq<u8>,
    sender_secret: Seq<u8>,
) -> Seq<u8>;

/// What crypto_box_open makes of `boxed` under `nonce`, for the holder of
/// `recipient_secret` and a box from `sender_public`: the plaintext, or
/// `None` when the box is rejected.
pub uninterp spec fn opened_box(
    boxed: Seq<u8>,
    nonce: Seq<u8>,
    sender_public: Seq<u8>,
    recipient_secret: Seq<u8>,
) -> Option<Seq<u8>>;

/// The key belongs to some secret key, as every generated public key does.
pub open spec fn is_public_key(key: Seq<u8>) -> bool {
    exists|secret: Seq<u8>| #[trigger] public_key_of(secret) == key
}

/// The pair is a genuine key pair.
pub open spec fn is_key_pair(public: Seq<u8>, secret: Seq<u8>) -> bool {
    public == public_key_of(secret)
}

/// `package` is a nonce followed by the box of `message` under that nonce.
pub open spec fn is_package_of(
    package: Seq<u8>,
    message: Seq<u8>,
    recipient_public: Seq<u8>,
    sender_secret: Seq<u8>,
) -> bool {
    &&& package.len() >= NONCE_BYTES
    &&& package.subrange(NONCE_BYTES as int, package.len() as int) == sealed_box(
        message,
        package.subrange(0, NONCE_BYTES as int),
        recipient_public,
        sender_secret,
    )
}

/// The outcome of decrypting `package` with the sender's public key and the
/// recipient's secret key.
pub open spec fn decryption_of(
    package: Seq<u8>,
    sender_public: Seq<u8>,
    recipient_secret: Seq<u8>,
) -> Result<Seq<char>, DecryptError> {
    if package.len() < NONCE_BYTES {
        Err(DecryptError::MalformedInput)
    } else {
        match opened_box(
            package.subrange(NONCE_BYTES as int, package.len() as int),
            package.subrange(0, NONCE_BYTES as int),
            sender_public,
            recipient_secret,
        ) {
            None => Err(DecryptError::AuthenticationFailure),
            Some(plain) => if valid_utf8(plain) {
                Ok(decode_utf8(plain))
            } else {
                Err(DecryptError::EncodingError)
            },
        }
    }
}

/// Relies on sodiumoxide::crypto::box_::gen_keypair: a random secret key and
/// the public key computed from it.
#[verifier::external_body]
fn random_key_pair() -> (r: (PublicKey, SecretKey))
    ensures
        is_key_pair(r.0@, r.1@),
{
    let (public, secret) = box_::gen_keypair();
    (PublicKey { bytes: public.0 }, SecretKey { bytes: secret.0 })
}

/// Relies on sodiumoxide::crypto::box_::gen_nonce: random nonce bytes.
#[verifier::external_body]
fn random_nonce() -> (r: Vec<u8>)
    ensures
        r@.len() == NONCE_BYTES,
{
    box_::gen_nonce().0.to_vec()
}

/// Relies on sodiumoxide::crypto::box_::seal: crypto_box_easy, whose output
/// is `MAC_BYTES` longer than the message.
#[verifier::external_body]
fn seal_box(message: &[u8], nonce: &[u8], recipient: &PublicKey, sender: &SecretKey) -> (r: Vec<u8>)
    requires
        nonce@.len() == NONCE_BYTES,
        message@.len() + MAC_BYTES <= usize::MAX,
    ensures
        r@.len() == message@.len() + MAC_BYTES,
        is_public_key(recipient@) ==> r@ == sealed_box(message@, nonce@, recipient@, sender@),
{
    let mut n = [0u8; NONCE_BYTES];
    n.copy_from_slice(nonce);
    box_::seal(
        message,
        &box_::Nonce(n),
        &box_::PublicKey(recipient.bytes),
        &box_::SecretKey(sender.bytes.clone()),
    )
}

/// Relies on sodiumoxide::crypto::box_::open: crypto_box_open_easy, which
/// refuses a box shorter than its tag and gives back the message of a box
/// sealed under the matching key pairs.
#[verifier::external_body]
fn open_box(boxed: &[u8], nonce: &[u8], sender: &PublicKey, recipient: &SecretKey) -> (r: Option<Vec<u8>>)
    requires
        nonce@.len() == NONCE_BYTES,
    ensures
        match r {
            Some(plain) => opened_box(boxed@, nonce@, sender@, recipient@) == Some(plain@),
            None => opened_box(boxed@, nonce@, sender@, recipient@) is None,
        },
        boxed@.len() < MAC_BYTES ==> r is None,
        forall|message: Seq<u8>, sender_secret: Seq<u8>|
            is_key_pair(sender@, sender_secret) && boxed@ == #[trigger] sealed_box(
                message,
                nonce@,
                public_key_of(recipient@),
                sender_secret,
            ) ==> r.is_some() && r.unwrap()@ == message,
{
    let mut n = [0u8; NONCE_BYTES];
    n.copy_from_slice(nonce);
    box_::open(
        boxed,
        &box_::Nonce(n),
        &box_::PublicKey(sender.bytes),
        &box_::SecretKey(recipient.bytes.clone()),
    ).ok()
}

/// Relies on std's String::from_utf8: accepted exactly when the bytes are
/// valid UTF-8, holding the characters they encode.
#[verifier::external_body]
fn string_from_utf8(bytes: Vec<u8>) -> (r: Option<String>)
    ensures
        match r {
            Some(text) => valid_utf8(bytes@) && text@ == decode_utf8(bytes@),
            None => !valid_utf8(bytes@),
        },
{
    String::from_utf8(bytes).ok()
}

/// A fresh key pair from the operating system's secure random source.
pub fn generate_keypair() -> (r: KeyPair)
    ensures
        is_key_pair(r.0@, r.1@),
{
    random_key_pair()
}

/// The bytes `data[start..end]` as a new vector.
fn copy_range(data: &[u8], start: usize, end: usize) -> (r: Vec<u8>)
    requires
        start <= end <= data@.len(),
    ensures
        r@ == data@.subrange(start as int, end as int),
{
    let mut r: Vec<u8> = Vec::with_capacity(end - start);
    let mut i: usize = start;
    while i < end
        invariant
            start <= i <= end <= data@.len(),
            r@ == data@.subrange(start as int, i as int),
        decreases end - i,
    {
        r.push(data[i]);
        i = i + 1;
    }
    r
}

/// Encrypts `message` for the holder of `public_key`, signed by the holder of
/// `secret_key`, under a fresh random nonce; returns `nonce ‖ sealed box`.
pub fn encrypt_message(message: &str, public_key: &PublicKey, secret_key: &SecretKey) -> (r: Vec<u8>)
    requires
        message.spec_bytes().len() + NONCE_BYTES + MAC_BYTES <= usize::MAX,
    ensures
        r@.len() == NONCE_BYTES + MAC_BYTES + message.spec_bytes().len(),
        is_public_key(public_key@) ==> is_package_of(
            r@,
            message.spec_bytes(),
            public_key@,
            secret_key@,
        ),
{
    let nonce = random_nonce();
    let plain = message.as_bytes();
    let sealed = seal_box(plain, nonce.as_slice(), public_key, secret_key);
    let mut r = nonce;
    let mut i: usize = 0;
    while i < sealed.len()
        invariant
            nonce@.len() == NONCE_BYTES,
            r@ == nonce@ + sealed@.subrange(0, i as int),
            i <= sealed@.len(),
        decreases sealed@.len() - i,
    {
        r.push(sealed[i]);
        i = i + 1;
    }
    assert(r@.subrange(0, NONCE_BYTES as int) =~= nonce@);
    assert(r@.subrange(NONCE_BYTES as int, r@.len() as int) =~= sealed@);
    r
}

/// Decrypts a ciphertext package from the holder of `public_key` with the
/// recipient's `secret_key`.
///
/// A package that the holder of `public_key`'s secret key made for this
/// recipient from some text always decrypts to that text.
pub fn decrypt_message(encrypted_data: &[u8], public_key: &PublicKey, secret_key: &SecretKey) -> (r: Result<String, DecryptError>)
    ensures
        match r {
            Ok(text) => decryption_of(encrypted_data@, public_key@, secret_key@) == Ok::<
                Seq<char>,
                DecryptError,
            >(text@),
            Err(e) => decryption_of(encrypted_data@, public_key@, secret_key@) == Err::<
                Seq<char>,
                DecryptError,
            >(e),
        },
        forall|text: Seq<char>, sender_secret: Seq<u8>|
            is_key_pair(public_key@, sender_secret) && #[trigger] is_package_of(
                encrypted_data@,
                encode_utf8(text),
                public_key_of(secret_key@),
                sender_secret,
            ) ==> r.is_ok() && r.unwrap()@ == text,
{
    if encrypted_data.len() < NONCE_BYTES {
        return Err(DecryptError::MalformedInput);
    }
    let nonce = copy_range(encrypted_data, 0, NONCE_BYTES);
    let boxed = copy_range(encrypted_data, NONCE_BYTES, encrypted_data.len());
    match open_box(boxed.as_slice(), nonce.as_slice(), public_key, secret_key) {
        None => Err(DecryptError::AuthenticationFailure),
        Some(plain) => match string_from_utf8(plain) {
            Some(text) => Ok(text),
            None => Err(DecryptError::EncodingError),
        },
    }
}

} // verus!
