//! The message envelope carried over the data channel and its binary codec.
use vstd::prelude::*;
use vstd::utf8::*;
use vstd::string::StringSliceAdditionalSpecFns;
use crate::wire::{
    be_u32, be_u64, get_bytes, get_u32, get_u64, pad_trim, padded, put_bytes, put_u32, put_u64,
    u32_be, u64_be, lemma_u32_round_trip, lemma_u64_round_trip,
};

verus! {

broadcast use vstd::utf8::group_utf8_lib;

/// The kind of a message, written on the wire as a snake-case name.
#[derive(Clone, Copy, Debug, PartialEq, Eq, Structural)]
pub enum MessageType {
    /// Interactive shell session.
    InteractiveShell,
    /// Reply to a task.
    AgentTaskReply,
    /// Completion of a task.
    AgentTaskComplete,
    /// Acknowledgment of a task sent over the control channel.
    AgentTaskAcknowledge,
    /// Acknowledgment of a data message.
    Acknowledge,
    /// Status of the session.
    AgentSessionState,
    /// The remote side closed the channel.
    ChannelClosed,
    /// Output data from the remote agent.
    OutputStreamData,
    /// Input data sent to the remote agent.
    InputStreamData,
    /// The remote data channel is inactive: stop sending stream messages.
    PausePublication,
    /// Sending stream messages may resume.
    StartPublication,
    /// Agent job.
    AgentJob,
    /// Acknowledgment of an agent job.
    AgentJobAck,
    /// Acknowledgment of an agent job reply.
    AgentJobReplyAck,
    /// Reply to an agent job.
    AgentJobReply,
}

impl MessageType {
    /// The wire name of this message type.
    pub open spec fn wire_name(self) -> Seq<char> {
        match self {
            MessageType::InteractiveShell => "interactive_shell"@,
            MessageType::AgentTaskReply => "agent_task_reply"@,
            MessageType::AgentTaskComplete => "agent_task_complete"@,
            MessageType::AgentTaskAcknowledge => "agent_task_acknowledge"@,
            MessageType::Acknowledge => "acknowledge"@,
            MessageType::AgentSessionState => "agent_session_state"@,
            MessageType::ChannelClosed => "channel_closed"@,
            MessageType::OutputStreamData => "output_stream_data"@,
            MessageType::InputStreamData => "input_stream_data"@,
            MessageType::PausePublication => "pause_publication"@,
            MessageType::StartPublication => "start_publication"@,
            MessageType::AgentJob => "agent_job"@,
            MessageType::AgentJobAck => "agent_job_ack"@,
            MessageType::AgentJobReplyAck => "agent_job_reply_ack"@,
            MessageType::AgentJobReply => "agent_job_reply"@,
        }
    }

    /// The wire name of this message type.
    pub fn to_string(&self) -> (r: &'static str)
        ensures
            r@ == self.wire_name(),
    {
        match self {
            MessageType::InteractiveShell => "interactive_shell",
            MessageType::AgentTaskReply => "agent_task_reply",
            MessageType::AgentTaskComplete => "agent_task_complete",
            MessageType::AgentTaskAcknowledge => "agent_task_acknowledge",
            MessageType::Acknowledge => "acknowledge",
            MessageType::AgentSessionState => "agent_session_state",
            MessageType::ChannelClosed => "channel_closed",
            MessageType::OutputStreamData => "output_stream_data",
            MessageType::InputStreamData => "input_stream_data",
            MessageType::PausePublication => "pause_publication",
            MessageType::StartPublication => "start_publication",
            MessageType::AgentJob => "agent_job",
            MessageType::AgentJobAck => "agent_job_ack",
            MessageType::AgentJobReplyAck => "agent_job_reply_ack",
            MessageType::AgentJobReply => "agent_job_reply",
        }
    }

    /// The message type whose wire name is `s`, if any.
    pub fn from_str(s: &str) -> (r: Result<MessageType, ()>)
        ensures
            r matches Ok(t) ==> type_of_name(s.spec_bytes()) == Some(t),
            r is Err <==> type_of_name(s.spec_bytes()) is None,
    {
        match from_wire_name(s.as_bytes()) {
            Some(t) => Ok(t),
            None => Err(()),
        }
    }
}

/// The UTF-8 bytes of a message type's wire name.
pub open spec fn name_bytes(t: MessageType) -> Seq<u8> {
    encode_utf8(t.wire_name())
}

/// The message type whose wire name has exactly the bytes `b`.
pub open spec fn type_of_name(b: Seq<u8>) -> Option<MessageType> {
    if b == name_bytes(MessageType::InteractiveShell) {
        Some(MessageType::InteractiveShell)
    } else if b == name_bytes(MessageType::AgentTaskReply) {
        Some(MessageType::AgentTaskReply)
    } else if b == name_bytes(MessageType::AgentTaskComplete) {
        Some(MessageType::AgentTaskComplete)
    } else if b == name_bytes(MessageType::AgentTaskAcknowledge) {
        Some(MessageType::AgentTaskAcknowledge)
    } else if b == name_bytes(MessageType::Acknowledge) {
        Some(MessageType::Acknowledge)
    } else if b == name_bytes(MessageType::AgentSessionState) {
        Some(MessageType::AgentSessionState)
    } else if b == name_bytes(MessageType::ChannelClosed) {
        Some(MessageType::ChannelClosed)
    } else if b == name_bytes(MessageType::OutputStreamData) {
        Some(MessageType::OutputStreamData)
    } else if b == name_bytes(MessageType::InputStreamData) {
        Some(MessageType::InputStreamData)
    } else if b == name_bytes(MessageType::PausePublication) {
        Some(MessageType::PausePublication)
    } else if b == name_bytes(MessageType::StartPublication) {
        Some(MessageType::StartPublication)
    } else if b == name_bytes(MessageType::AgentJob) {
        Some(MessageType::AgentJob)
    } else if b == name_bytes(MessageType::AgentJobAck) {
        Some(MessageType::AgentJobAck)
    } else if b == name_bytes(MessageType::AgentJobReplyAck) {
        Some(MessageType::AgentJobReplyAck)
    } else if b == name_bytes(MessageType::AgentJobReply) {
        Some(MessageType::AgentJobReply)
    } else {
        None
    }
}

/// Every wire name is short ASCII text that ends in a nonzero byte, and no two
/// message types share one.
pub proof fn lemma_name_bytes(t: MessageType)
    ensures
        0 < name_bytes(t).len() <= 32,
        name_bytes(t).last() != 0u8,
        type_of_name(name_bytes(t)) == Some(t),
{
    reveal_strlit("interactive_shell");
    reveal_strlit("agent_task_reply");
    reveal_strlit("agent_task_complete");
    reveal_strlit("agent_task_acknowledge");
    reveal_strlit("acknowledge");
    reveal_strlit("agent_session_state");
    reveal_strlit("channel_closed");
    reveal_strlit("output_stream_data");
    reveal_strlit("input_stream_data");
    reveal_strlit("pause_publication");
    reveal_strlit("start_publication");
    reveal_strlit("agent_job");
    reveal_strlit("agent_job_ack");
    reveal_strlit("agent_job_reply_ack");
    reveal_strlit("agent_job_reply");
    assert(is_ascii_chars(t.wire_name()));
    assert forall|u: MessageType| name_bytes(u) == name_bytes(t) implies u == t by {
        assert(decode_utf8(name_bytes(u)) == u.wire_name());
        assert(decode_utf8(name_bytes(t)) == t.wire_name());
        assert(u.wire_name().len() == t.wire_name().len());
        assert(u.wire_name()[2] == t.wire_name()[2]);
        assert(u.wire_name()[6] == t.wire_name()[6]);
    }
}

/// Whether two byte slices hold the same bytes.
pub fn bytes_eq(a: &[u8], b: &[u8]) -> (r: bool)
    ensures
        r == (a@ == b@),
{
    if a.len() != b.len() {
        return false;
    }
    let mut i: usize = 0;
    while i < a.len()
        invariant
            a@.len() == b@.len(),
            i <= a@.len(),
            forall|j: int| 0 <= j < i ==> a@[j] == b@[j],
        decreases a@.len() - i,
    {
        if a[i] != b[i] {
            return false;
        }
        i = i + 1;
    }
    assert(a@ =~= b@);
    true
}

/// The message type whose wire name is exactly `b`.
pub fn from_wire_name(b: &[u8]) -> (r: Option<MessageType>)
    ensures
        r == type_of_name(b@),
{
    if bytes_eq(b, "interactive_shell".as_bytes()) {
        return Some(MessageType::InteractiveShell);
    }
    if bytes_eq(b, "agent_task_reply".as_bytes()) {
        return Some(MessageType::AgentTaskReply);
    }
    if bytes_eq(b, "agent_task_complete".as_bytes()) {
        return Some(MessageType::AgentTaskComplete);
    }
    if bytes_eq(b, "agent_task_acknowledge".as_bytes()) {
        return Some(MessageType::AgentTaskAcknowledge);
    }
    if bytes_eq(b, "acknowledge".as_bytes()) {
        return Some(MessageType::Acknowledge);
    }
    if bytes_eq(b, "agent_session_state".as_bytes()) {
        return Some(MessageType::AgentSessionState);
    }
    if bytes_eq(b, "channel_closed".as_bytes()) {
        return Some(MessageType::ChannelClosed);
    }
    if bytes_eq(b, "output_stream_data".as_bytes()) {
        return Some(MessageType::OutputStreamData);
    }
    if bytes_eq(b, "input_stream_data".as_bytes()) {
        return Some(MessageType::InputStreamData);
    }
    if bytes_eq(b, "pause_publication".as_bytes()) {
        return Some(MessageType::PausePublication);
    }
    if bytes_eq(b, "start_publication".as_bytes()) {
        return Some(MessageType::StartPublication);
    }
    if bytes_eq(b, "agent_job".as_bytes()) {
        return Some(MessageType::AgentJob);
    }
    if bytes_eq(b, "agent_job_ack".as_bytes()) {
        return Some(MessageType::AgentJobAck);
    }
    if bytes_eq(b, "agent_job_reply_ack".as_bytes()) {
        return Some(MessageType::AgentJobReplyAck);
    }
    if bytes_eq(b, "agent_job_reply".as_bytes()) {
        return Some(MessageType::AgentJobReply);
    }
    None
}

/// Another name for `MessageType`.
pub type EMessageType = MessageType;

/// Another name for `PayloadType`.
pub type EPayloadType = PayloadType;

/// The kind of a message's payload, written on the wire as a 4-byte code.
#[derive(Clone, Copy, Debug, PartialEq, Eq, Structural)]
pub enum PayloadType {
    Null,
    Output,
    Error,
    Size,
    Parameter,
    HandshakeRequestPayloadType,
    HandshakeResponsePayloadType,
    HandshakeCompletePayloadType,
    EncChallengeRequest,
    EncChallengeResponse,
    Flag,
    StdErr,
    ExitCode,
}

impl PayloadType {
    /// The numeric code of this payload type.
    pub open spec fn code(self) -> u32 {
        match self {
            PayloadType::Null => 0,
            PayloadType::Output => 1,
            PayloadType::Error => 2,
            PayloadType::Size => 3,
            PayloadType::Parameter => 4,
            PayloadType::HandshakeRequestPayloadType => 5,
            PayloadType::HandshakeResponsePayloadType => 6,
            PayloadType::HandshakeCompletePayloadType => 7,
            PayloadType::EncChallengeRequest => 8,
            PayloadType::EncChallengeResponse => 9,
            PayloadType::Flag => 10,
            PayloadType::StdErr => 11,
            PayloadType::ExitCode => 12,
        }
    }

    /// The numeric code of this payload type.
    pub fn to_u32(&self) -> (r: u32)
        ensures
            r == self.code(),
    {
        match self {
            PayloadType::Null => 0,
            PayloadType::Output => 1,
            PayloadType::Error => 2,
            PayloadType::Size => 3,
            PayloadType::Parameter => 4,
            PayloadType::HandshakeRequestPayloadType => 5,
            PayloadType::HandshakeResponsePayloadType => 6,
            PayloadType::HandshakeCompletePayloadType => 7,
            PayloadType::EncChallengeRequest => 8,
            PayloadType::EncChallengeResponse => 9,
            PayloadType::Flag => 10,
            PayloadType::StdErr => 11,
            PayloadType::ExitCode => 12,
        }
    }

    /// The payload type with the given code, if the code is known.
    pub fn from_u32(value: u32) -> (r: Option<PayloadType>)
        ensures
            r == payload_type_of_code(value),
    {
        match value {
            0 => Some(PayloadType::Null),
            1 => Some(PayloadType::Output),
            2 => Some(PayloadType::Error),
            3 => Some(PayloadType::Size),
            4 => Some(PayloadType::Parameter),
            5 => Some(PayloadType::HandshakeRequestPayloadType),
            6 => Some(PayloadType::HandshakeResponsePayloadType),
            7 => Some(PayloadType::HandshakeCompletePayloadType),
            8 => Some(PayloadType::EncChallengeRequest),
            9 => Some(PayloadType::EncChallengeResponse),
            10 => Some(PayloadType::Flag),
            11 => Some(PayloadType::StdErr),
            12 => Some(PayloadType::ExitCode),
            _ => None,
        }
    }

    /// The payload type with the given code, if the code is known.
    pub fn from_i32(value: i32) -> (r: Option<PayloadType>)
        ensures
            value < 0 ==> r is None,
            value >= 0 ==> r == payload_type_of_code(value as u32),
    {
        if value < 0 {
            None
        } else {
            PayloadType::from_u32(value as u32)
        }
    }
}

/// The payload type with code `c`.
pub open spec fn payload_type_of_code(c: u32) -> Option<PayloadType> {
        if c == 0 {
            Some(PayloadType::Null)
        } else if c == 1 {
            Some(PayloadType::Output)
        } else if c == 2 {
            Some(PayloadType::Error)
        } else if c == 3 {
            Some(PayloadType::Size)
        } else if c == 4 {
            Some(PayloadType::Parameter)
        } else if c == 5 {
            Some(PayloadType::HandshakeRequestPayloadType)
        } else if c == 6 {
            Some(PayloadType::HandshakeResponsePayloadType)
        } else if c == 7 {
            Some(PayloadType::HandshakeCompletePayloadType)
        } else if c == 8 {
            Some(PayloadType::EncChallengeRequest)
        } else if c == 9 {
            Some(PayloadType::EncChallengeResponse)
        } else if c == 10 {
            Some(PayloadType::Flag)
        } else if c == 11 {
            Some(PayloadType::StdErr)
        } else if c == 12 {
            Some(PayloadType::ExitCode)
        } else {
            None
        }
}

/// Each payload type is found again from its code.
pub proof fn lemma_payload_code(t: PayloadType)
    ensures
        payload_type_of_code(t.code()) == Some(t),
{
}

impl From<PayloadType> for u32 {
    fn from(value: PayloadType) -> (r: u32) {
        value.to_u32()
    }
}

impl vstd::std_specs::convert::FromSpecImpl<PayloadType> for u32 {
    open spec fn obeys_from_spec() -> bool {
        true
    }

    open spec fn from_spec(v: PayloadType) -> u32 {
        v.code()
    }
}

/// Flag values carried in a payload of type `Flag`.
#[derive(Clone, Copy, Debug, PartialEq, Eq, Structural)]
pub enum PayloadTypeFlag {
    DisconnectToPort,
    TerminateSession,
    ConnectToPortError,
}

impl PayloadTypeFlag {
    /// The numeric code of this flag.
    pub open spec fn code(self) -> u32 {
        match self {
            PayloadTypeFlag::DisconnectToPort => 1,
            PayloadTypeFlag::TerminateSession => 2,
            PayloadTypeFlag::ConnectToPortError => 3,
        }
    }

    /// The numeric code of this flag.
    pub fn to_u32(&self) -> (r: u32)
        ensures
            r == self.code(),
    {
        match self {
            PayloadTypeFlag::DisconnectToPort => 1,
            PayloadTypeFlag::TerminateSession => 2,
            PayloadTypeFlag::ConnectToPortError => 3,
        }
    }
}

/// Why a message could not be read, built or accepted.
#[derive(Debug)]
pub enum ClientMessageError {
    /// A field holds a value that is not allowed.
    ValidationError(String),
    /// A frame could not be read: a field lies outside the buffer or is not valid text.
    DeserializationError(String),
    /// A message could not be written.
    SerializationError(String),
}

impl ClientMessageError {
    /// The error's message.
    pub fn to_string(&self) -> (r: String)
        ensures
            r@ == match self {
                ClientMessageError::ValidationError(s) => s@,
                ClientMessageError::DeserializationError(s) => s@,
                ClientMessageError::SerializationError(s) => s@,
            },
    {
        match self {
            ClientMessageError::ValidationError(s) => s.clone(),
            ClientMessageError::DeserializationError(s) => s.clone(),
            ClientMessageError::SerializationError(s) => s.clone(),
        }
    }
}

/// Length in bytes of the header-length field.
pub const HL_LENGTH: usize = 4;
/// Length in bytes of the message-type field.
pub const MESSAGE_TYPE_LENGTH: usize = 32;
/// Length in bytes of the schema-version field.
pub const SCHEMA_VERSION_LENGTH: usize = 4;
/// Length in bytes of the created-date field.
pub const CREATED_DATE_LENGTH: usize = 8;
/// Length in bytes of the sequence-number field.
pub const SEQUENCE_NUMBER_LENGTH: usize = 8;
/// Length in bytes of the flags field.
pub const FLAGS_LENGTH: usize = 8;
/// Length in bytes of the message-identifier field.
pub const MESSAGE_ID_LENGTH: usize = 16;
/// Length in bytes of the payload-digest field.
pub const PAYLOAD_DIGEST_LENGTH: usize = 32;
/// Length in bytes of the payload-type field.
pub const PAYLOAD_TYPE_LENGTH: usize = 4;
/// Length in bytes of the payload-length field.
pub const PAYLOAD_LENGTH_LENGTH: usize = 4;

/// Offset of the header-length field; each later offset follows the field before it.
pub const HL_OFFSET: usize = 0;
pub const MESSAGE_TYPE_OFFSET: usize = HL_OFFSET + HL_LENGTH;
pub const SCHEMA_VERSION_OFFSET: usize = MESSAGE_TYPE_OFFSET + MESSAGE_TYPE_LENGTH;
pub const CREATED_DATE_OFFSET: usize = SCHEMA_VERSION_OFFSET + SCHEMA_VERSION_LENGTH;
pub const SEQUENCE_NUMBER_OFFSET: usize = CREATED_DATE_OFFSET + CREATED_DATE_LENGTH;
pub const FLAGS_OFFSET: usize = SEQUENCE_NUMBER_OFFSET + SEQUENCE_NUMBER_LENGTH;
pub const MESSAGE_ID_OFFSET: usize = FLAGS_OFFSET + FLAGS_LENGTH;
pub const PAYLOAD_DIGEST_OFFSET: usize = MESSAGE_ID_OFFSET + MESSAGE_ID_LENGTH;
pub const PAYLOAD_TYPE_OFFSET: usize = PAYLOAD_DIGEST_OFFSET + PAYLOAD_DIGEST_LENGTH;
pub const PAYLOAD_LENGTH_OFFSET: usize = PAYLOAD_TYPE_OFFSET + PAYLOAD_TYPE_LENGTH;
pub const PAYLOAD_OFFSET: usize = PAYLOAD_LENGTH_OFFSET + PAYLOAD_LENGTH_LENGTH;

/// The header length of every message this library builds.
pub const HEADER_LENGTH: u32 = 116;
/// The header length of older messages that carry no payload-type field.
pub const LEGACY_HEADER_LENGTH: u32 = 112;

/// Bit 0 of the flags: the first message of a stream.
pub const FLAG_SYN: u64 = 1;
/// Bit 1 of the flags: the final message of a stream.
pub const FLAG_FIN: u64 = 2;

/// A message of the data channel.
///
/// On the wire, big-endian: header length (4), message type (32, zero-padded),
/// schema version (4), created date (8), sequence number (8), flags (8),
/// message identifier (16), payload digest (32), payload type (4),
/// payload length (4), payload.
#[derive(Debug)]
pub struct ClientMessage {
    /// Offset of the payload-length field; 116, or 112 in messages without a payload type.
    pub header_length: u32,
    pub message_type: MessageType,
    pub schema_version: u32,
    /// Creation time, in milliseconds since the Unix epoch (UTC).
    pub created_date: u64,
    pub sequence_number: i64,
    /// Bit 0 is SYN, bit 1 is FIN.
    pub flags: u64,
    /// The identifier in its canonical byte order.
    pub message_id: [u8; 16],
    /// SHA-256 of the payload bytes.
    pub payload_digest: Vec<u8>,
    pub payload_type: PayloadType,
    /// Byte length of the payload.
    pub payload_length: u32,
    pub payload: String,
}

/// Where byte `i` of the identifier's wire form comes from: bytes 0 to 3 are
/// reversed, so are bytes 4 and 5 and bytes 6 and 7; bytes 8 to 15 stay.
pub open spec fn id_source(i: int) -> int {
    if i < 4 {
        3 - i
    } else if i < 6 {
        9 - i
    } else if i < 8 {
        13 - i
    } else {
        i
    }
}

/// The mixed-endian wire form of a 16-byte identifier; the same map turns a
/// wire form back into the identifier.
pub open spec fn swapped_id(id: Seq<u8>) -> Seq<u8> {
    Seq::new(16, |i: int| id[id_source(i)])
}

/// Swapping the identifier bytes twice gives back the identifier.
pub proof fn lemma_swap_involutive(id: Seq<u8>)
    requires
        id.len() == 16,
    ensures
        swapped_id(swapped_id(id)) == id,
{
    assert(swapped_id(swapped_id(id)) =~= id);
}

/// The wire form of an identifier.
pub fn put_uuid(id: &[u8; 16]) -> (r: [u8; 16])
    ensures
        r@ == swapped_id(id@),
{
    let mut b: [u8; 16] = *id;
    b[0] = id[3];
    b[1] = id[2];
    b[2] = id[1];
    b[3] = id[0];
    b[4] = id[5];
    b[5] = id[4];
    b[6] = id[7];
    b[7] = id[6];
    assert(b@ =~= swapped_id(id@));
    b
}

/// The identifier whose wire form stands at `offset`, or `None` when it does not fit.
pub fn get_uuid(b: &[u8], offset: usize) -> (r: Option<[u8; 16]>)
    ensures
        r is Some <==> offset + 16 <= b@.len(),
        r matches Some(id) ==> id@ == swapped_id(b@.subrange(offset as int, offset + 16)),
{
    if offset > b.len() || b.len() - offset < 16 {
        return None;
    }
    let mut wire: [u8; 16] = [0u8; 16];
    let mut i: usize = 0;
    while i < 16
        invariant
            offset + 16 <= b.len(),
            i <= 16,
            wire@.len() == 16,
            forall|j: int| 0 <= j < i ==> wire@[j] == b@[offset + j],
        decreases 16 - i,
    {
        wire[i] = b[offset + i];
        i = i + 1;
    }
    assert(wire@ =~= b@.subrange(offset as int, offset + 16));
    Some(put_uuid(&wire))
}

/// `s` without its trailing zero bytes.
pub open spec fn trim_zeros(s: Seq<u8>) -> Seq<u8>
    decreases s.len(),
{
    if s.len() > 0 && s.last() == 0u8 {
        trim_zeros(s.drop_last())
    } else {
        s
    }
}

/// Trimming the zero padding of a wire name gives back the name.
proof fn lemma_trim_padded(name: Seq<u8>, k: nat)
    requires
        name.len() > 0,
        name.last() != 0u8,
    ensures
        trim_zeros(name + Seq::new(k, |i: int| 0u8)) == name,
    decreases k,
{
    let s = name + Seq::new(k, |i: int| 0u8);
    if k == 0 {
        assert(s =~= name);
    } else {
        assert(s.drop_last() =~= name + Seq::new((k - 1) as nat, |i: int| 0u8));
        lemma_trim_padded(name, (k - 1) as nat);
    }
}

/// The bytes of `b` with trailing zero bytes removed.
fn trim_trailing_zeros(b: &Vec<u8>) -> (r: Vec<u8>)
    ensures
        r@ == trim_zeros(b@),
{
    let mut end: usize = b.len();
    assert(b@.subrange(0, end as int) =~= b@);
    while end > 0 && b[end - 1] == 0u8
        invariant
            end <= b@.len(),
            trim_zeros(b@.subrange(0, end as int)) == trim_zeros(b@),
        decreases end,
    {
        assert(b@.subrange(0, end as int).drop_last() =~= b@.subrange(0, end - 1));
        end = end - 1;
    }
    let mut r: Vec<u8> = Vec::new();
    let mut i: usize = 0;
    while i < end
        invariant
            end <= b@.len(),
            i <= end,
            r@ == b@.subrange(0, i as int),
        decreases end - i,
    {
        r.push(b[i]);
        i = i + 1;
        assert(r@ =~= b@.subrange(0, i as int));
    }
    r
}

/// The wire bytes of `m`.
pub open spec fn encoded(m: ClientMessage) -> Seq<u8> {
    u32_be(m.header_length) + padded(name_bytes(m.message_type), 32) + u32_be(m.schema_version)
        + u64_be(m.created_date) + u64_be(m.sequence_number as u64) + u64_be(m.flags) + swapped_id(
        m.message_id@,
    ) + m.payload_digest@ + u32_be(m.payload_type.code()) + u32_be(m.payload_length) + encode_utf8(
        m.payload@,
    )
}

/// The header length read from `b`.
pub open spec fn header_length_of(b: Seq<u8>) -> int {
    be_u32(b.subrange(0, 4)) as int
}

/// Where the payload-length field of `b` stands: at 112 for a legacy header,
/// else at its fixed offset 116.
pub open spec fn payload_length_offset(b: Seq<u8>) -> int {
    if header_length_of(b) == LEGACY_HEADER_LENGTH {
        LEGACY_HEADER_LENGTH as int
    } else {
        PAYLOAD_LENGTH_OFFSET as int
    }
}

/// The payload type read from `b`: none for a legacy header, else the code at offset 112.
pub open spec fn payload_type_in(b: Seq<u8>) -> Option<PayloadType> {
    if header_length_of(b) == LEGACY_HEADER_LENGTH {
        Some(PayloadType::Null)
    } else {
        payload_type_of_code(be_u32(b.subrange(112, 116)))
    }
}

/// Whether `b` holds a message that can be read: the fixed fields fit, the
/// message type is a known name once its zero padding is trimmed, the payload
/// type is known, the payload-length field fits, and the rest is valid UTF-8.
pub open spec fn decodable(b: Seq<u8>) -> bool {
    &&& b.len() >= 112
    &&& type_of_name(trim_zeros(b.subrange(4, 36))) is Some
    &&& (header_length_of(b) != LEGACY_HEADER_LENGTH ==> b.len() >= 116)
    &&& payload_type_in(b) is Some
    &&& payload_length_offset(b) + 4 <= b.len()
    &&& valid_utf8(b.subrange(payload_length_offset(b) + 4, b.len() as int))
}

/// Whether `m` is what is read from the decodable bytes `b`.
pub open spec fn decodes_to(b: Seq<u8>, m: ClientMessage) -> bool {
    let pl = payload_length_offset(b);
    &&& m.header_length == header_length_of(b)
    &&& Some(m.message_type) == type_of_name(trim_zeros(b.subrange(4, 36)))
    &&& m.schema_version == be_u32(b.subrange(36, 40))
    &&& m.created_date == be_u64(b.subrange(40, 48))
    &&& m.sequence_number == be_u64(b.subrange(48, 56)) as i64
    &&& m.flags == be_u64(b.subrange(56, 64))
    &&& m.message_id@ == swapped_id(b.subrange(64, 80))
    &&& m.payload_digest@ == b.subrange(80, 112)
    &&& Some(m.payload_type) == payload_type_in(b)
    &&& m.payload_length == be_u32(b.subrange(pl, pl + 4))
    &&& m.payload@ == decode_utf8(b.subrange(pl + 4, b.len() as int))
}

/// Whether two messages agree on every field.
pub open spec fn same_message(a: ClientMessage, b: ClientMessage) -> bool {
    &&& a.header_length == b.header_length
    &&& a.message_type == b.message_type
    &&& a.schema_version == b.schema_version
    &&& a.created_date == b.created_date
    &&& a.sequence_number == b.sequence_number
    &&& a.flags == b.flags
    &&& a.message_id@ == b.message_id@
    &&& a.payload_digest@ == b.payload_digest@
    &&& a.payload_type == b.payload_type
    &&& a.payload_length == b.payload_length
    &&& a.payload@ == b.payload@
}

/// Decoding inverts encoding: the wire bytes of a well-formed message can be
/// read, and what is read from them agrees with the message on every field
/// (the message-type padding is trimmed, the payload text comes back unchanged).
pub proof fn lemma_decode_encode(m: ClientMessage, d: ClientMessage)
    requires
        m.well_formed(),
    ensures
        decodable(encoded(m)),
        decodes_to(encoded(m), d) ==> same_message(d, m),
{
    let e = encoded(m);
    let name = name_bytes(m.message_type);
    let pay = encode_utf8(m.payload@);
    lemma_name_bytes(m.message_type);
    let zeros = Seq::new((32 - name.len()) as nat, |i: int| 0u8);
    assert(padded(name, 32) =~= name + zeros);
    lemma_trim_padded(name, (32 - name.len()) as nat);
    assert(e.len() == 120 + pay.len());
    assert(e.subrange(0, 4) =~= u32_be(m.header_length));
    assert(e.subrange(4, 36) =~= padded(name, 32));
    assert(e.subrange(36, 40) =~= u32_be(m.schema_version));
    assert(e.subrange(40, 48) =~= u64_be(m.created_date));
    assert(e.subrange(48, 56) =~= u64_be(m.sequence_number as u64));
    assert(e.subrange(56, 64) =~= u64_be(m.flags));
    assert(e.subrange(64, 80) =~= swapped_id(m.message_id@));
    assert(e.subrange(80, 112) =~= m.payload_digest@);
    assert(e.subrange(112, 116) =~= u32_be(m.payload_type.code()));
    assert(e.subrange(116, 120) =~= u32_be(m.payload_length));
    assert(e.subrange(120, e.len() as int) =~= pay);
    lemma_u32_round_trip(m.header_length);
    lemma_u32_round_trip(m.schema_version);
    lemma_u32_round_trip(m.payload_type.code());
    lemma_u32_round_trip(m.payload_length);
    lemma_u64_round_trip(m.created_date);
    lemma_u64_round_trip(m.sequence_number as u64);
    lemma_u64_round_trip(m.flags);
    lemma_swap_involutive(m.message_id@);
    lemma_payload_code(m.payload_type);
    let x = m.sequence_number;
    assert(((x as u64) as i64) == x) by (bit_vector);
    if decodes_to(e, d) {
        assert(d.message_id@ =~= m.message_id@);
    }
}

impl ClientMessage {
    /// A message as this library builds it: the canonical header length, a
    /// 32-byte digest, and a payload length that is the payload's byte length.
    pub open spec fn well_formed(&self) -> bool {
        &&& self.header_length == HEADER_LENGTH
        &&& self.payload_digest@.len() == 32
        &&& self.payload_length == encode_utf8(self.payload@).len()
    }

    /// The wire bytes of this message.
    pub fn serialize_client_message(&self) -> (r: Vec<u8>)
        ensures
            r@ == encoded(*self),
    {
        let mut bytes: Vec<u8> = Vec::new();
        put_u32(&mut bytes, self.header_length);
        let name = pad_trim(self.message_type.to_string().as_bytes(), MESSAGE_TYPE_LENGTH);
        put_bytes(&mut bytes, name.as_slice());
        put_u32(&mut bytes, self.schema_version);
        put_u64(&mut bytes, self.created_date);
        put_u64(&mut bytes, self.sequence_number as u64);
        put_u64(&mut bytes, self.flags);
        let id = put_uuid(&self.message_id);
        put_bytes(&mut bytes, &id);
        put_bytes(&mut bytes, self.payload_digest.as_slice());
        put_u32(&mut bytes, self.payload_type.to_u32());
        put_u32(&mut bytes, self.payload_length);
        put_bytes(&mut bytes, self.payload.as_str().as_bytes());
        bytes
    }

    /// Reads a message from its wire bytes. Every failure is a
    /// `DeserializationError`; the payload digest is not checked.
    pub fn deserialize_client_message(input: &[u8]) -> (r: Result<ClientMessage, ClientMessageError>)
        ensures
            r is Ok <==> decodable(input@),
            r matches Ok(m) ==> decodes_to(input@, m),
            r matches Err(e) ==> e is DeserializationError,
    {
        if input.len() < PAYLOAD_TYPE_OFFSET {
            return Err(ClientMessageError::DeserializationError("Offset is outside the byte array.".to_string()));
        }
        let header_length = match get_u32(input, HL_OFFSET) {
            Some(v) => v,
            None => {
                return Err(ClientMessageError::DeserializationError("Offset is outside the byte array.".to_string()));
            },
        };
        let type_field = match get_bytes(input, MESSAGE_TYPE_OFFSET, MESSAGE_TYPE_LENGTH) {
            Some(v) => v,
            None => {
                return Err(ClientMessageError::DeserializationError("Offset is outside the byte array.".to_string()));
            },
        };
        let wire_type = trim_trailing_zeros(&type_field);
        let message_type = match from_wire_name(wire_type.as_slice()) {
            Some(t) => t,
            None => {
                return Err(ClientMessageError::DeserializationError("Unknown message type.".to_string()));
            },
        };
        let schema_version = match get_u32(input, SCHEMA_VERSION_OFFSET) {
            Some(v) => v,
            None => {
                return Err(ClientMessageError::DeserializationError("Offset is outside the byte array.".to_string()));
            },
        };
        let created_date = match get_u64(input, CREATED_DATE_OFFSET) {
            Some(v) => v,
            None => {
                return Err(ClientMessageError::DeserializationError("Offset is outside the byte array.".to_string()));
            },
        };
        let sequence_number = match get_u64(input, SEQUENCE_NUMBER_OFFSET) {
            Some(v) => v as i64,
            None => {
                return Err(ClientMessageError::DeserializationError("Offset is outside the byte array.".to_string()));
            },
        };
        let flags = match get_u64(input, FLAGS_OFFSET) {
            Some(v) => v,
            None => {
                return Err(ClientMessageError::DeserializationError("Offset is outside the byte array.".to_string()));
            },
        };
        let message_id = match get_uuid(input, MESSAGE_ID_OFFSET) {
            Some(v) => v,
            None => {
                return Err(ClientMessageError::DeserializationError("Offset is outside the byte array.".to_string()));
            },
        };
        let payload_digest = match get_bytes(input, PAYLOAD_DIGEST_OFFSET, PAYLOAD_DIGEST_LENGTH) {
            Some(v) => v,
            None => {
                return Err(ClientMessageError::DeserializationError("Offset is outside the byte array.".to_string()));
            },
        };
        let payload_type = if header_length == LEGACY_HEADER_LENGTH {
            PayloadType::Null
        } else {
            let code = match get_u32(input, PAYLOAD_TYPE_OFFSET) {
                Some(v) => v,
                None => {
                    return Err(ClientMessageError::DeserializationError("Offset is outside the byte array.".to_string()));
                },
            };
            match PayloadType::from_u32(code) {
                Some(t) => t,
                None => {
                    return Err(ClientMessageError::DeserializationError("Unknown payload type.".to_string()));
                },
            }
        };
        let length_offset: usize = if header_length == LEGACY_HEADER_LENGTH {
            PAYLOAD_TYPE_OFFSET
        } else {
            PAYLOAD_LENGTH_OFFSET
        };
        let payload_length = match get_u32(input, length_offset) {
            Some(v) => v,
            None => {
                return Err(ClientMessageError::DeserializationError("Offset is outside the byte array.".to_string()));
            },
        };
        let start = length_offset + PAYLOAD_LENGTH_LENGTH;
        let payload_bytes = match get_bytes(input, start, input.len() - start) {
            Some(v) => v,
            None => {
                return Err(ClientMessageError::DeserializationError("Offset is outside the byte array.".to_string()));
            },
        };
        let payload = match utf8_string(payload_bytes) {
            Some(s) => s,
            None => {
                return Err(ClientMessageError::DeserializationError("UTF-8 conversion failed.".to_string()));
            },
        };
        Ok(ClientMessage {
            header_length,
            message_type,
            schema_version,
            created_date,
            sequence_number,
            flags,
            message_id,
            payload_digest,
            payload_type,
            payload_length,
            payload,
        })
    }
}

/// Relies on `String::from_utf8`: it succeeds exactly on valid UTF-8, and the
/// string then holds the characters those bytes encode.
#[verifier::external_body]
fn utf8_string(bytes: Vec<u8>) -> (r: Option<String>)
    ensures
        r is Some <==> valid_utf8(bytes@),
        r matches Some(s) ==> s@ == decode_utf8(bytes@),
{
    String::from_utf8(bytes).ok()
}

} // verus!
