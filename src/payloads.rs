//! Plain data carried as JSON inside message payloads, and the values the
//! client exchanges with the session service.
use vstd::prelude::*;
use crate::message::MessageType;

verus! {

/// Acknowledges one received message to its sender.
#[derive(Debug)]
pub struct AcknowledgeContent {
    pub message_type: MessageType,
    /// Identifier of the acknowledged message, in canonical byte order.
    pub message_id: [u8; 16],
    pub sequence_number: i64,
    pub is_sequential_message: bool,
}

/// Tells the client that the channel is closed.
#[derive(Debug)]
pub struct ChannelClosed {
    pub message_id: String,
    pub created_date: String,
    pub destination_id: String,
    pub session_id: String,
    pub message_type: String,
    pub schema_version: i32,
    pub output: String,
}

/// Terminal size.
#[derive(Debug, Clone, Copy)]
pub struct SizeData {
    pub cols: u32,
    pub rows: u32,
}

/// Terminal size as the terminal reports it.
#[derive(Debug, Clone, Copy)]
pub struct TermOptions {
    pub cols: u16,
    pub rows: u16,
}

impl SizeData {
    /// The size of a terminal.
    pub fn from_term_options(t: TermOptions) -> (r: SizeData)
        ensures
            r.cols == t.cols,
            r.rows == t.rows,
    {
        SizeData { cols: t.cols as u32, rows: t.rows as u32 }
    }
}

/// Parameters of an action requested during the handshake.
#[derive(Debug)]
pub struct ActionParameters {
    pub session_type: Option<String>,
    pub properties: Option<Vec<String>>,
    pub kms_key_id: Option<String>,
}

/// The remote data channel is inactive: stop sending stream messages.
#[derive(Debug)]
pub struct PausePublication {
    pub message_type: String,
    pub schema_version: u32,
    pub message_id: String,
    pub created_date: String,
}

/// Sending stream messages may resume.
#[derive(Debug)]
pub struct StartPublication {
    pub message_id: String,
    pub created_date: String,
    pub destination_id: String,
    pub session_id: String,
    pub message_type: String,
    pub schema_version: u32,
    pub output: String,
}

/// The action the agent requests during the handshake.
#[derive(Debug, Clone, Copy, PartialEq, Eq, Structural)]
pub enum ActionType {
    KMSEncryption,
    SessionType,
}

/// The outcome of a requested action.
#[derive(Debug, Clone, Copy, PartialEq, Eq, Structural)]
pub enum ActionStatus {
    Success,
    Failed,
    Unsupported,
}

impl ActionStatus {
    /// The numeric code of this status.
    pub open spec fn code(self) -> u32 {
        match self {
            ActionStatus::Success => 1,
            ActionStatus::Failed => 2,
            ActionStatus::Unsupported => 3,
        }
    }

    /// The numeric code of this status.
    pub fn to_u32(&self) -> (r: u32)
        ensures
            r == self.code(),
    {
        match self {
            ActionStatus::Success => 1,
            ActionStatus::Failed => 2,
            ActionStatus::Unsupported => 3,
        }
    }
}

/// Sent by the agent to start encryption under a key.
#[derive(Debug)]
pub struct KMSEncryptionRequest {
    pub kms_key_id: String,
}

/// The client's answer to an encryption request: the data key in ciphertext
/// form, and its digest.
#[derive(Debug)]
pub struct KMSEncryptionResponse {
    pub kms_cipher_text_key: Vec<u8>,
    pub kms_cipher_text_hash: Vec<u8>,
}

/// The session type to launch and its properties as raw JSON text.
#[derive(Debug)]
pub struct SessionTypeRequest {
    pub session_type: String,
    pub properties: String,
}

/// An action the agent requests, with its parameters as raw JSON text.
#[derive(Debug)]
pub struct RequestedClientAction {
    pub action_type: ActionType,
    pub action_parameters: String,
}

/// The handshake the agent opens with.
#[derive(Debug)]
pub struct HandshakeRequestPayload {
    pub agent_version: String,
    pub requested_client_actions: Vec<RequestedClientAction>,
}

/// Output stream content that opens a session: the agent's version and the
/// actions it requests.
#[derive(Debug)]
pub struct OutputStreamData {
    pub agent_version: String,
    pub requested_client_actions: Vec<RequestedClientAction>,
}

/// The result of one requested action, with its result as raw JSON text.
#[derive(Debug)]
pub struct ProcessedClientAction {
    pub action_type: ActionType,
    pub action_status: ActionStatus,
    pub action_result: String,
    pub error: String,
}

/// The client's answer to the handshake.
#[derive(Debug)]
pub struct HandshakeResponsePayload {
    pub client_version: String,
    pub processed_client_actions: Vec<ProcessedClientAction>,
    pub errors: Vec<String>,
}

/// Data encrypted by the agent that the client must decrypt and encrypt again.
#[derive(Debug)]
pub struct EncryptionChallengeRequest {
    pub challenge: Vec<u8>,
}

/// The challenge, decrypted and encrypted again by the client.
#[derive(Debug)]
pub struct EncryptionChallengeResponse {
    pub challenge: Vec<u8>,
}

/// The handshake is complete; the session may start.
#[derive(Debug)]
pub struct HandshakeCompletePayload {
    /// How long the handshake took, in nanoseconds.
    pub handshake_time_to_complete: u64,
    pub customer_message: String,
}

/// A frame handed to the transport.
#[derive(Debug)]
pub enum WebSocketMessage {
    Binary(Vec<u8>),
    Text(String),
}

/// The schema version of the token message.
pub const MESSAGE_SCHEMA_VERSION: &'static str = "1.0";

/// The first text frame of a session: it presents the session token.
#[derive(Debug)]
pub struct Token {
    pub message_schema_version: String,
    pub request_id: String,
    pub token_value: String,
}

impl Token {
    /// The token frame for a session.
    pub fn build_token_message(request_id: &str, token_value: &str) -> (r: Token)
        ensures
            r.message_schema_version@ == MESSAGE_SCHEMA_VERSION@,
            r.request_id@ == request_id@,
            r.token_value@ == token_value@,
    {
        Token {
            message_schema_version: MESSAGE_SCHEMA_VERSION.to_string(),
            request_id: request_id.to_string(),
            token_value: token_value.to_string(),
        }
    }
}

/// The request that opens the data channel.
#[derive(Debug)]
pub struct OpenDataChannelInput {
    pub message_schema_version: String,
    pub request_id: String,
    pub token_value: String,
    pub client_id: String,
}

impl OpenDataChannelInput {
    /// The request for a session, with a fresh random client identifier;
    /// nothing when no random identifier can be drawn.
    pub fn new(request_id: &str, token_value: &str) -> (r: Option<OpenDataChannelInput>)
        ensures
            r matches Some(o) ==> {
                &&& o.message_schema_version@ == MESSAGE_SCHEMA_VERSION@
                &&& o.request_id@ == request_id@
                &&& o.token_value@ == token_value@
                &&& o.client_id@.len() == 36
            },
    {
        let id = match crate::entropy::new_message_id() {
            Some(id) => id,
            None => {
                return None;
            },
        };
        Some(OpenDataChannelInput {
            message_schema_version: MESSAGE_SCHEMA_VERSION.to_string(),
            request_id: request_id.to_string(),
            token_value: token_value.to_string(),
            client_id: crate::entropy::uuid_text(id),
        })
    }
}

} // verus!
