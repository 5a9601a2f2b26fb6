//! Client-side protocol engine for the session data channel: the binary
//! envelope codec, payload encryption, and the reliable-delivery state machine.
use vstd::prelude::*;

pub mod builder;
pub mod channel;
pub mod digest;
pub mod encryption;
pub mod entropy;
pub mod message;
pub mod payloads;
pub mod transport;
pub mod wire;

verus! {

} // verus!
