use session_manager::digest::get_sha256_hash;
use session_manager::message::{
    get_uuid, put_uuid, ClientMessage, ClientMessageError, EMessageType, EPayloadType, MessageType,
    PayloadType,
};
use session_manager::wire::{pad_trim, pattern_at};

fn sample(payload: &str, sequence_number: i64, flags: u64) -> ClientMessage {
    ClientMessage {
        header_length: 116,
        message_type: MessageType::InputStreamData,
        schema_version: 1,
        created_date: 1_700_000_000_123,
        sequence_number,
        flags,
        message_id: [
            0x10, 0x11, 0x12, 0x13, 0x14, 0x15, 0x16, 0x17, 0x18, 0x19, 0x1a, 0x1b, 0x1c, 0x1d,
            0x1e, 0x1f,
        ],
        payload_digest: get_sha256_hash(payload),
        payload_type: PayloadType::Size,
        payload_length: payload.len() as u32,
        payload: payload.to_string(),
    }
}

#[test]
fn example_envelope_round_trip() {
    let payload = "{\"cols\":80,\"rows\":24}";
    let m = sample(payload, 0, 1);
    let bytes = m.serialize_client_message();
    let d = ClientMessage::deserialize_client_message(&bytes).unwrap();
    assert_eq!(d.sequence_number, 0);
    assert_eq!(d.flags, 1);
    assert_eq!(d.payload, payload);
    assert_eq!(d.header_length, 116);
    assert_eq!(d.message_type, MessageType::InputStreamData);
}

#[test]
fn round_trip_keeps_every_field() {
    let m = sample("héllo wörld ✓", -42, 3);
    let bytes = m.serialize_client_message();
    let d = ClientMessage::deserialize_client_message(&bytes).unwrap();
    assert_eq!(d.header_length, m.header_length);
    assert_eq!(d.message_type, m.message_type);
    assert_eq!(d.schema_version, m.schema_version);
    assert_eq!(d.created_date, m.created_date);
    assert_eq!(d.sequence_number, -42);
    assert_eq!(d.flags, 3);
    assert_eq!(d.message_id, m.message_id);
    assert_eq!(d.payload_digest, m.payload_digest);
    assert_eq!(d.payload_type, m.payload_type);
    assert_eq!(d.payload_length, m.payload_length);
    assert_eq!(d.payload, m.payload);
}

#[test]
fn round_trip_every_message_type() {
    let all = [
        MessageType::InteractiveShell,
        MessageType::AgentTaskReply,
        MessageType::AgentTaskComplete,
        MessageType::AgentTaskAcknowledge,
        MessageType::Acknowledge,
        MessageType::AgentSessionState,
        MessageType::ChannelClosed,
        MessageType::OutputStreamData,
        MessageType::InputStreamData,
        MessageType::PausePublication,
        MessageType::StartPublication,
        MessageType::AgentJob,
        MessageType::AgentJobAck,
        MessageType::AgentJobReplyAck,
        MessageType::AgentJobReply,
    ];
    for t in all {
        let mut m = sample("x", 7, 0);
        m.message_type = t;
        let d = ClientMessage::deserialize_client_message(&m.serialize_client_message()).unwrap();
        assert_eq!(d.message_type, t);
        assert_eq!(MessageType::from_str(t.to_string()), Ok(t));
    }
}

#[test]
fn encoded_layout() {
    let m = sample("ab", 0x0102030405060708, 1);
    let b = m.serialize_client_message();
    assert_eq!(b.len(), 122);
    assert_eq!(&b[0..4], &[0, 0, 0, 116]);
    assert_eq!(&b[4..21], "input_stream_data".as_bytes());
    assert!(b[21..36].iter().all(|x| *x == 0));
    assert_eq!(&b[36..40], &[0, 0, 0, 1]);
    assert_eq!(&b[48..56], &[1, 2, 3, 4, 5, 6, 7, 8]);
    assert_eq!(&b[56..64], &[0, 0, 0, 0, 0, 0, 0, 1]);
    assert_eq!(
        &b[64..80],
        &[
            0x13, 0x12, 0x11, 0x10, 0x15, 0x14, 0x17, 0x16, 0x18, 0x19, 0x1a, 0x1b, 0x1c, 0x1d,
            0x1e, 0x1f
        ]
    );
    assert_eq!(&b[112..116], &[0, 0, 0, 3]);
    assert_eq!(&b[116..120], &[0, 0, 0, 2]);
    assert_eq!(&b[120..], "ab".as_bytes());
}

fn is_deserialization_error(r: Result<ClientMessage, ClientMessageError>) -> bool {
    matches!(r, Err(ClientMessageError::DeserializationError(_)))
}

#[test]
fn decode_rejects_short_buffer() {
    let b = sample("ab", 1, 0).serialize_client_message();
    assert!(is_deserialization_error(ClientMessage::deserialize_client_message(&b[..100])));
    assert!(is_deserialization_error(ClientMessage::deserialize_client_message(&[])));
}

#[test]
fn decode_rejects_unknown_message_type() {
    let mut b = sample("ab", 1, 0).serialize_client_message();
    b[4] = b'X';
    assert!(is_deserialization_error(ClientMessage::deserialize_client_message(&b)));
}

#[test]
fn decode_rejects_invalid_utf8_payload() {
    let mut b = sample("ab", 1, 0).serialize_client_message();
    b[120] = 0xff;
    assert!(is_deserialization_error(ClientMessage::deserialize_client_message(&b)));
}

#[test]
fn decode_rejects_unknown_payload_type() {
    let mut b = sample("ab", 1, 0).serialize_client_message();
    b[115] = 13;
    assert!(is_deserialization_error(ClientMessage::deserialize_client_message(&b)));
}

#[test]
fn decode_rejects_missing_payload_length() {
    let b = sample("ab", 1, 0).serialize_client_message();
    assert!(is_deserialization_error(ClientMessage::deserialize_client_message(&b[..118])));
}

#[test]
fn decode_reads_payload_length_at_fixed_offset() {
    let mut b = sample("ab", 1, 0).serialize_client_message();
    b[3] = 200;
    let d = ClientMessage::deserialize_client_message(&b).unwrap();
    assert_eq!(d.header_length, 200);
    assert_eq!(d.payload_length, 2);
    assert_eq!(d.payload, "ab");
}

#[test]
fn decode_legacy_header_has_null_payload_type() {
    let mut b = sample("ab", 1, 0).serialize_client_message();
    // A legacy frame: header length 112, payload length at 112, payload at 116.
    b.drain(112..116);
    b[3] = 112;
    let d = ClientMessage::deserialize_client_message(&b).unwrap();
    assert_eq!(d.header_length, 112);
    assert_eq!(d.payload_type, PayloadType::Null);
    assert_eq!(d.payload_length, 2);
    assert_eq!(d.payload, "ab");
}

#[test]
fn identifier_swap() {
    let id: [u8; 16] = [0, 1, 2, 3, 4, 5, 6, 7, 8, 9, 10, 11, 12, 13, 14, 15];
    let w = put_uuid(&id);
    assert_eq!(w, [3, 2, 1, 0, 5, 4, 7, 6, 8, 9, 10, 11, 12, 13, 14, 15]);
    assert_eq!(put_uuid(&w), id);
    let mut framed = vec![0xaa, 0xbb];
    framed.extend_from_slice(&w);
    assert_eq!(get_uuid(&framed, 2), Some(id));
    assert_eq!(get_uuid(&framed, 3), None);
}

#[test]
fn identifier_swap_is_self_inverse() {
    let ids: [[u8; 16]; 3] = [[0; 16], [0xff; 16], [
        9, 8, 7, 6, 5, 4, 3, 2, 1, 0, 0xfe, 0xdc, 0xba, 0x98, 0x76, 0x54,
    ]];
    for id in ids {
        assert_eq!(put_uuid(&put_uuid(&id)), id);
    }
}

#[test]
fn sha256_known_values() {
    let empty = get_sha256_hash("");
    assert_eq!(&empty[..4], &[0xe3, 0xb0, 0xc4, 0x42]);
    let abc = get_sha256_hash("abc");
    assert_eq!(&abc[..4], &[0xba, 0x78, 0x16, 0xbf]);
    assert_eq!(abc.len(), 32);
}

#[test]
fn sha256_is_deterministic() {
    assert_eq!(get_sha256_hash("payload"), get_sha256_hash("payload"));
    assert_ne!(get_sha256_hash("payload"), get_sha256_hash("paylOad"));
}

#[test]
fn pad_trim_cuts_and_pads() {
    assert_eq!(pad_trim(&[1, 2, 3], 5), vec![1, 2, 3, 0, 0]);
    assert_eq!(pad_trim(&[1, 2, 3], 2), vec![1, 2]);
    assert_eq!(pad_trim(&[], 0), Vec::<u8>::new());
}

#[test]
fn pattern_at_finds_all_positions() {
    assert_eq!(pattern_at(b"abcabc", b"bc"), vec![1, 4]);
    assert_eq!(pattern_at(b"aaaa", b"aa"), vec![0, 1, 2]);
    assert_eq!(pattern_at(b"ab", b"abc"), Vec::<usize>::new());
    assert_eq!(pattern_at(b"ab", b""), vec![0, 1, 2]);
}

#[test]
fn message_type_names() {
    assert_eq!(MessageType::Acknowledge.to_string(), "acknowledge");
    assert_eq!(EMessageType::AgentJobAck.to_string(), "agent_job_ack");
    assert_eq!(MessageType::from_str("output_stream_data"), Ok(MessageType::OutputStreamData));
    assert_eq!(MessageType::from_str("output_stream"), Err(()));
    assert_eq!(MessageType::from_str(""), Err(()));
}

#[test]
fn payload_type_codes() {
    assert_eq!(EPayloadType::from_i32(0), Some(PayloadType::Null));
    assert_eq!(EPayloadType::from_i32(3), Some(PayloadType::Size));
    assert_eq!(EPayloadType::from_i32(12), Some(PayloadType::ExitCode));
    assert_eq!(EPayloadType::from_i32(13), None);
    assert_eq!(EPayloadType::from_i32(-1), None);
    assert_eq!(u32::from(PayloadType::ExitCode), 12);
    assert_eq!(PayloadType::HandshakeCompletePayloadType.to_u32(), 7);
    assert_eq!(PayloadType::from_u32(8), Some(PayloadType::EncChallengeRequest));
}

#[test]
fn round_trip_empty_payload() {
    let m = sample("", 9, 2);
    let b = m.serialize_client_message();
    assert_eq!(b.len(), 120);
    let d = ClientMessage::deserialize_client_message(&b).unwrap();
    assert_eq!(d.payload, "");
    assert_eq!(d.payload_length, 0);
    assert_eq!(d.flags, 2);
}
