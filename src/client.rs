//! The client side of the exchange: which address to use, and whether the
//! server's response acknowledges the envelope.
use vstd::prelude::*;

verus! {

/// The server address used when none is configured.
pub const DEFAULT_SERVER_ADDRESS: &'static str = "127.0.0.1:8080";

/// The bytes of the acknowledgment `"Message received."`.
pub open spec fn acknowledgment_bytes() -> Seq<u8> {
    seq![77u8, 101, 115, 115, 97, 103, 101, 32, 114, 101, 99, 101, 105, 118, 101, 100, 46]
}

/// Why sending an envelope failed.
#[derive(Debug, Clone, Copy, PartialEq, Eq, Structural)]
pub enum SendError {
    /// The server answered something other than the acknowledgment.
    NotAcknowledged,
}

/// The fixed acknowledgment that the server writes for a delivered envelope.
pub fn acknowledgment() -> (r: Vec<u8>)
    ensures
        r@ == acknowledgment_bytes(),
{
    let r: Vec<u8> = vec![77u8, 101, 115, 115, 97, 103, 101, 32, 114, 101, 99, 101, 105, 118, 101, 100, 46];
    assert(r@ =~= acknowledgment_bytes());
    r
}

/// Whether `response` is exactly the acknowledgment.
pub fn is_acknowledgment(response: &[u8]) -> (r: bool)
    ensures
        r == (response@ == acknowledgment_bytes()),
{
    let expected = acknowledgment();
    if response.len() != expected.len() {
        return false;
    }
    let mut i: usize = 0;
    while i < response.len()
        invariant
            expected@ == acknowledgment_bytes(),
            response@.len() == expected@.len(),
            i <= response@.len(),
            forall|k: int| 0 <= k < i ==> response@[k] == expected@[k],
        decreases response@.len() - i,
    {
        if response[i] != expected[i] {
            return false;
        }
        i = i + 1;
    }
    assert(response@ =~= expected@);
    true
}

/// The outcome of one send, from the server's response: success only on the
/// exact acknowledgment, whatever else arrived (including nothing).
pub fn check_acknowledgment(response: &[u8]) -> (r: Result<(), SendError>)
    ensures
        r is Ok <==> response@ == acknowledgment_bytes(),
        r is Err ==> r == Err::<(), SendError>(SendError::NotAcknowledged),
{
    if is_acknowledgment(response) {
        Ok(())
    } else {
        Err(SendError::NotAcknowledged)
    }
}

/// The address to send to: the configured one, or the default when none is set.
pub fn resolve_server_address(configured: &str) -> (r: String)
    ensures
        configured@.len() == 0 ==> r@ == DEFAULT_SERVER_ADDRESS@,
        configured@.len() != 0 ==> r@ == configured@,
{
    if configured.is_empty() {
        DEFAULT_SERVER_ADDRESS.to_owned()
    } else {
        configured.to_owned()
    }
}

} // verus!
