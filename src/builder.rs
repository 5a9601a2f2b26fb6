//! Construction of the messages this client sends.
use vstd::prelude::*;
use vstd::string::StringSliceAdditionalSpecFns;
use vstd::utf8::encode_utf8;
use crate::digest::{get_sha256_hash, sha256_of};
use crate::entropy::new_message_id;
use crate::message::{encoded, ClientMessage, MessageType, PayloadType, HEADER_LENGTH};

verus! {

/// Relies on `std::time::SystemTime::now`: the current time in milliseconds
/// since the Unix epoch, or 0 for a clock set before it.
#[verifier::external_body]
fn now_millis() -> (r: u64) {
    match std::time::SystemTime::now().duration_since(std::time::UNIX_EPOCH) {
        Ok(d) => d.as_millis() as u64,
        Err(_) => 0,
    }
}

/// The schema version of every message this library builds.
pub const SCHEMA_VERSION: u32 = 1;

/// A message carrying `payload`, stamped with the current time and a fresh
/// random identifier, and with the SHA-256 digest of the payload; nothing
/// when no random identifier can be drawn.
pub fn build_agent_message(
    payload: String,
    message_type: MessageType,
    sequence_number: i64,
    payload_type: PayloadType,
    flags: u64,
) -> (r: Option<ClientMessage>)
    requires
        encode_utf8(payload@).len() <= u32::MAX,
    ensures
        r matches Some(m) ==> {
            &&& m.header_length == HEADER_LENGTH
            &&& m.message_type == message_type
            &&& m.schema_version == SCHEMA_VERSION
            &&& m.sequence_number == sequence_number
            &&& m.flags == flags
            &&& m.payload_digest@ == sha256_of(encode_utf8(payload@))
            &&& m.payload_type == payload_type
            &&& m.payload_length == encode_utf8(payload@).len()
            &&& m.payload@ == payload@
            &&& m.well_formed()
        },
{
    let payload_digest = get_sha256_hash(payload.as_str());
    let payload_length = payload.as_str().len() as u32;
    let created_date = now_millis();
    let message_id = match new_message_id() {
        Some(id) => id,
        None => {
            return None;
        },
    };
    Some(ClientMessage {
        header_length: HEADER_LENGTH,
        message_type,
        schema_version: SCHEMA_VERSION,
        created_date,
        sequence_number,
        flags,
        message_id,
        payload_digest,
        payload_type,
        payload_length,
        payload,
    })
}

/// The flags of an input message: SYN on every message but the one with
/// sequence number 1.
pub open spec fn input_flags(sequence_number: i64) -> u64 {
    if sequence_number == 1 {
        0
    } else {
        1
    }
}

/// The wire bytes of an input message carrying the typed text `input`;
/// nothing when no random identifier can be drawn.
pub fn build_input_message(input: &str, sequence_number: i64) -> (r: Option<Vec<u8>>)
    requires
        input.spec_bytes().len() <= u32::MAX,
    ensures
        r matches Some(b) ==> exists|m: ClientMessage|
            {
                &&& b@ == encoded(m)
                &&& m.well_formed()
                &&& m.message_type == MessageType::InputStreamData
                &&& m.payload_type == PayloadType::Output
                &&& m.sequence_number == sequence_number
                &&& m.flags == input_flags(sequence_number)
                &&& m.schema_version == SCHEMA_VERSION
                &&& m.payload@ == input@
                &&& m.payload_digest@ == sha256_of(input.spec_bytes())
            },
{
    let flags: u64 = if sequence_number == 1 {
        0
    } else {
        1
    };
    match build_agent_message(
        input.to_string(),
        MessageType::InputStreamData,
        sequence_number,
        PayloadType::Output,
        flags,
    ) {
        Some(m) => Some(m.serialize_client_message()),
        None => None,
    }
}

} // verus!
