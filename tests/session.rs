use session_manager::builder::build_input_message;
use session_manager::digest::get_sha256_hash;
use session_manager::encryption::{EncryptionError, Encrypter};
use session_manager::message::{ClientMessage, MessageType, PayloadType};
use session_manager::payloads::{OpenDataChannelInput, SizeData, TermOptions, Token};
use session_manager::transport::{next_receive_step, ReceiveAction, ReceiveEvent, RETRY_ATTEMPT};

fn data_key(a: u8, b: u8) -> Vec<u8> {
    let mut k = vec![a; 32];
    k.extend(vec![b; 32]);
    k
}

#[test]
fn input_message_fields() {
    let b = build_input_message("ls\n", 5).unwrap();
    let d = ClientMessage::deserialize_client_message(&b).unwrap();
    assert_eq!(d.message_type, MessageType::InputStreamData);
    assert_eq!(d.payload_type, PayloadType::Output);
    assert_eq!(d.sequence_number, 5);
    assert_eq!(d.flags, 1);
    assert_eq!(d.schema_version, 1);
    assert_eq!(d.header_length, 116);
    assert_eq!(d.payload, "ls\n");
    assert_eq!(d.payload_length, 3);
    assert_eq!(d.payload_digest, get_sha256_hash("ls\n"));
}

#[test]
fn input_message_flags_for_sequence_one() {
    let d = ClientMessage::deserialize_client_message(&build_input_message("a", 1).unwrap()).unwrap();
    assert_eq!(d.flags, 0);
}

#[test]
fn input_messages_get_fresh_identifiers() {
    let a = ClientMessage::deserialize_client_message(&build_input_message("a", 2).unwrap()).unwrap();
    let b = ClientMessage::deserialize_client_message(&build_input_message("a", 2).unwrap()).unwrap();
    assert_ne!(a.message_id, b.message_id);
}

#[test]
fn token_message() {
    let t = Token::build_token_message("req-1", "tok");
    assert_eq!(t.message_schema_version, "1.0");
    assert_eq!(t.request_id, "req-1");
    assert_eq!(t.token_value, "tok");
}

#[test]
fn open_data_channel_input() {
    let a = OpenDataChannelInput::new("req", "tok").unwrap();
    let b = OpenDataChannelInput::new("req", "tok").unwrap();
    assert_eq!(a.message_schema_version, "1.0");
    assert_eq!(a.request_id, "req");
    assert_eq!(a.token_value, "tok");
    assert_eq!(a.client_id.len(), 36);
    assert_ne!(a.client_id, b.client_id);
}

#[test]
fn size_from_terminal() {
    let s = SizeData::from_term_options(TermOptions { cols: 80, rows: 24 });
    assert_eq!((s.cols, s.rows), (80, 24));
}

#[test]
fn data_key_must_have_sixty_four_bytes() {
    assert!(matches!(
        Encrypter::from_data_key("k".to_string(), &[1u8; 63], &[9]),
        Err(EncryptionError::InvalidKey)
    ));
    let e = Encrypter::from_data_key("key-id".to_string(), &data_key(1, 2), &[9, 8, 7]).unwrap();
    assert_eq!(e.encryption_key, vec![1u8; 32]);
    assert_eq!(e.decryption_key, vec![2u8; 32]);
    assert_eq!(e.get_encrypted_data_key(), &[9, 8, 7]);
    assert_eq!(e.get_kms_key_id(), "key-id");
}

#[test]
fn peer_decrypts_what_was_encrypted() {
    let ours = Encrypter::from_data_key("k".to_string(), &data_key(1, 2), &[]).unwrap();
    let theirs = Encrypter::from_data_key("k".to_string(), &data_key(2, 1), &[]).unwrap();
    for p in [&b""[..], &b"hello"[..], &[0u8, 255, 7, 7, 7][..]] {
        let c = ours.encrypt(p).unwrap();
        assert_eq!(c.len(), 12 + p.len() + 16);
        assert_eq!(theirs.decrypt(&c).unwrap(), p.to_vec());
        let back = theirs.encrypt(p).unwrap();
        assert_eq!(ours.decrypt(&back).unwrap(), p.to_vec());
    }
}

#[test]
fn encryption_uses_fresh_nonces() {
    let e = Encrypter::from_data_key("k".to_string(), &data_key(3, 3), &[]).unwrap();
    let a = e.encrypt(b"same").unwrap();
    let b = e.encrypt(b"same").unwrap();
    assert_ne!(a, b);
    assert_ne!(&a[12..], b"same");
}

#[test]
fn encrypt_with_nonce_leads_with_nonce() {
    let e = Encrypter::from_data_key("k".to_string(), &data_key(4, 4), &[]).unwrap();
    let nonce = [7u8; 12];
    let c = e.encrypt_with_nonce(&nonce, b"abc").unwrap();
    assert_eq!(&c[..12], &nonce);
    assert_eq!(c.len(), 12 + 3 + 16);
    assert_eq!(e.encrypt_with_nonce(&nonce, b"abc").unwrap(), c);
    assert_eq!(e.decrypt(&c).unwrap(), b"abc".to_vec());
}

#[test]
fn decrypt_rejects_short_and_tampered_input() {
    let e = Encrypter::from_data_key("k".to_string(), &data_key(5, 5), &[]).unwrap();
    assert_eq!(e.decrypt(&[0u8; 11]), Err(EncryptionError::CiphertextTooShort));
    let mut c = e.encrypt(b"secret").unwrap();
    let last = c.len() - 1;
    c[last] ^= 1;
    assert_eq!(e.decrypt(&c), Err(EncryptionError::AuthenticationFailed));
    assert_eq!(e.decrypt(&[0u8; 12]), Err(EncryptionError::AuthenticationFailed));
}

#[test]
fn receive_loop_steps() {
    let s = next_receive_step(true, 3, RETRY_ATTEMPT, ReceiveEvent::Binary);
    assert_eq!((s.action, s.retry_count), (ReceiveAction::Deliver, 0));
    let s = next_receive_step(true, 3, RETRY_ATTEMPT, ReceiveEvent::Control);
    assert_eq!((s.action, s.retry_count), (ReceiveAction::Skip, 3));
    let s = next_receive_step(true, 3, RETRY_ATTEMPT, ReceiveEvent::Failed);
    assert_eq!((s.action, s.retry_count), (ReceiveAction::Retry, 4));
    let s = next_receive_step(true, 4, RETRY_ATTEMPT, ReceiveEvent::Failed);
    assert_eq!((s.action, s.retry_count), (ReceiveAction::Fail, 5));
    let s = next_receive_step(true, 0, RETRY_ATTEMPT, ReceiveEvent::Ended);
    assert_eq!(s.action, ReceiveAction::Stop);
    let s = next_receive_step(false, 0, RETRY_ATTEMPT, ReceiveEvent::Binary);
    assert_eq!(s.action, ReceiveAction::Stop);
}

#[test]
fn aes_gcm_known_answer() {
    // All-zero 256-bit key, all-zero nonce, sixteen zero bytes of plaintext.
    let e = Encrypter::from_data_key("k".to_string(), &[0u8; 64], &[]).unwrap();
    let c = e.encrypt_with_nonce(&[0u8; 12], &[0u8; 16]).unwrap();
    assert_eq!(
        &c[12..28],
        &[
            0xce, 0xa7, 0x40, 0x3d, 0x4d, 0x60, 0x6b, 0x6e, 0x07, 0x4e, 0xc5, 0xd3, 0xba, 0xf3,
            0x9d, 0x18
        ]
    );
    assert_eq!(
        &c[28..44],
        &[
            0xd0, 0xd1, 0xc8, 0xa7, 0x99, 0x99, 0x6b, 0xf0, 0x26, 0x5b, 0x98, 0xb5, 0xd4, 0x8a,
            0xb9, 0x19
        ]
    );
}
