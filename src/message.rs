//! The envelope that travels from client to server, and its framing on the
//! wire: a 4-byte big-endian length, then exactly that many bytes.
use crate::encryption::{encrypt_message, is_package_of, is_public_key, PublicKey, SecretKey, MAC_BYTES, NONCE_BYTES};
use vstd::prelude::*;
use vstd::string::StringSliceAdditionalSpecFns;

verus! {

#[verifier::external_type_specification]
#[verifier::external_body]
pub struct ExSystemTime(std::time::SystemTime);

/// Relies on std's SystemTime::now: the system clock's current reading.
#[verifier::external_body]
fn system_clock_now() -> (r: std::time::SystemTime) {
    std::time::SystemTime::now()
}

/// Relies on std's SystemTime::duration_since with UNIX_EPOCH: the whole
/// milliseconds since the epoch, or `None` for a reading before 1970 (or
/// too far after it for an `i64`).
#[verifier::external_body]
fn millis_since_epoch(t: &std::time::SystemTime) -> (r: Option<i64>)
    ensures
        r matches Some(millis) ==> millis >= 0,
{
    match t.duration_since(std::time::UNIX_EPOCH) {
        Ok(elapsed) => i64::try_from(elapsed.as_millis()).ok(),
        Err(_) => None,
    }
}

/// The current UTC time as milliseconds since the Unix epoch, or `None` when
/// the system clock reads before 1970.
pub(crate) fn unix_millis_now() -> (r: Option<i64>)
    ensures
        r matches Some(millis) ==> millis >= 0,
{
    let now = system_clock_now();
    millis_since_epoch(&now)
}

/// The kind of payload that an envelope carries.
#[derive(Debug, Clone, Copy, PartialEq, Eq, Structural)]
pub enum MessageType {
    Text,
    File,
}

/// A UTC instant, as milliseconds since the Unix epoch.
#[derive(Debug, Clone, Copy, PartialEq, Eq, Structural)]
pub struct Timestamp {
    pub millis: i64,
}

impl Timestamp {
    /// The current instant, or `None` when the system clock reads before
    /// the Unix epoch.
    pub fn now() -> (r: Option<Timestamp>)
        ensures
            r matches Some(t) ==> t.millis >= 0,
    {
        match unix_millis_now() {
            Some(millis) => Some(Timestamp { millis }),
            None => None,
        }
    }
}

/// The envelope: metadata, the ciphertext package, and the sender's public key
/// in cleartext. `content` is empty until filled by `encrypt_content`.
#[derive(Debug, Clone)]
pub struct Message {
    pub timestamp: Timestamp,
    pub message_type: MessageType,
    pub sender: String,
    pub recipient: String,
    pub content: Vec<u8>,
    pub public_key: PublicKey,
}

impl Message {
    /// Fills `content` with `plaintext` encrypted for the holder of
    /// `receiver_public_key` by the holder of `sender_secret_key`; every other
    /// field stays as it was.
    pub fn encrypt_content(
        &mut self,
        plaintext: &str,
        receiver_public_key: &PublicKey,
        sender_secret_key: &SecretKey,
    )
        requires
            plaintext.spec_bytes().len() + NONCE_BYTES + MAC_BYTES <= usize::MAX,
        ensures
            final(self).content@.len() == NONCE_BYTES + MAC_BYTES + plaintext.spec_bytes().len(),
            is_public_key(receiver_public_key@) ==> is_package_of(
                final(self).content@,
                plaintext.spec_bytes(),
                receiver_public_key@,
                sender_secret_key@,
            ),
            final(self).timestamp == old(self).timestamp,
            final(self).message_type == old(self).message_type,
            final(self).sender == old(self).sender,
            final(self).recipient == old(self).recipient,
            final(self).public_key == old(self).public_key,
    {
        self.content = encrypt_message(plaintext, receiver_public_key, sender_secret_key);
    }
}

/// Length of a frame header, in bytes.
pub const FRAME_HEADER_BYTES: usize = 4;

/// The big-endian value of four bytes.
pub open spec fn be_u32(b: Seq<u8>) -> int
    recommends
        b.len() == 4,
{
    ((b[0] as int * 256 + b[1] as int) * 256 + b[2] as int) * 256 + b[3] as int
}

/// Frames `payload` for the wire: its length as four big-endian bytes, then
/// the payload itself; `None` when the length does not fit in four bytes.
pub fn encode_frame(payload: &[u8]) -> (r: Option<Vec<u8>>)
    ensures
        match r {
            Some(frame) => payload@.len() <= u32::MAX && frame@.len() == FRAME_HEADER_BYTES
                + payload@.len() && be_u32(frame@.subrange(0, 4)) == payload@.len()
                && frame@.subrange(4, frame@.len() as int) == payload@,
            None => payload@.len() > u32::MAX,
        },
{
    if payload.len() > u32::MAX as usize {
        return None;
    }
    let n = payload.len() as u32;
    let mut frame: Vec<u8> = Vec::new();
    frame.push((n / 16777216) as u8);
    frame.push(((n / 65536) % 256) as u8);
    frame.push(((n / 256) % 256) as u8);
    frame.push((n % 256) as u8);
    assert(be_u32(frame@.subrange(0, 4)) == n) by {
        assert(frame@.subrange(0, 4) =~= frame@);
        assert(n / 16777216 < 256) by (nonlinear_arith)
            requires
                n <= u32::MAX,
        ;
        assert((((n / 16777216) * 256 + (n / 65536) % 256) * 256 + (n / 256) % 256) * 256 + n
            % 256 == n) by (nonlinear_arith)
            requires
                n <= u32::MAX,
        ;
    }
    let mut i: usize = 0;
    while i < payload.len()
        invariant
            i <= payload@.len(),
            frame@.len() == FRAME_HEADER_BYTES + i,
            be_u32(frame@.subrange(0, 4)) == n,
            frame@.subrange(4, frame@.len() as int) == payload@.subrange(0, i as int),
        decreases payload@.len() - i,
    {
        let ghost prev = frame@;
        frame.push(payload[i]);
        assert(frame@.subrange(0, 4) =~= prev.subrange(0, 4));
        assert(frame@.subrange(4, frame@.len() as int) =~= payload@.subrange(0, i + 1));
        i = i + 1;
    }
    assert(payload@.subrange(0, payload@.len() as int) =~= payload@);
    Some(frame)
}

/// What a frame header announces: the length of the envelope that follows,
/// or `None` when the header is not four bytes long.
pub fn frame_length(header: &[u8]) -> (r: Option<u32>)
    ensures
        match r {
            Some(n) => header@.len() == FRAME_HEADER_BYTES && n == be_u32(header@),
            None => header@.len() != FRAME_HEADER_BYTES,
        },
{
    if header.len() != FRAME_HEADER_BYTES {
        return None;
    }
    let n: u32 = ((header[0] as u32 * 256 + header[1] as u32) * 256 + header[2] as u32) * 256
        + header[3] as u32;
    Some(n)
}

} // verus!
