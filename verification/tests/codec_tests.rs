use rrockerd::codec::{decode_outcome, encode_outcome, ChildOutcome, ProtocolError};

#[test]
fn success_payload_round_trips() {
    let payload = vec![0xABu8, 0x00, 0xFF, 0x42];
    let encoded = encode_outcome(&ChildOutcome::Success(payload.clone()));
    match decode_outcome(&encoded) {
        Ok(ChildOutcome::Success(p)) => assert_eq!(p, payload),
        _ => panic!("expected the payload back"),
    }
}

#[test]
fn failure_message_chain_round_trips() {
    let msgs = vec![
        b"Failed to pivot root".to_vec(),
        b"Failed to mount proc".to_vec(),
        Vec::new(),
    ];
    let encoded = encode_outcome(&ChildOutcome::Failure(msgs.clone()));
    match decode_outcome(&encoded) {
        Ok(ChildOutcome::Failure(m)) => assert_eq!(m, msgs),
        _ => panic!("expected the message chain back"),
    }
}

#[test]
fn empty_success_payload_round_trips() {
    let encoded = encode_outcome(&ChildOutcome::Success(Vec::new()));
    assert_eq!(encoded, vec![0u8]);
    match decode_outcome(&encoded) {
        Ok(ChildOutcome::Success(p)) => assert!(p.is_empty()),
        _ => panic!("expected an empty payload"),
    }
}

#[test]
fn encoding_is_tag_then_length_prefixed_messages() {
    let encoded = encode_outcome(&ChildOutcome::Success(vec![0xAB]));
    assert_eq!(encoded, vec![0u8, 0xAB]);

    let encoded = encode_outcome(&ChildOutcome::Failure(vec![b"hi".to_vec()]));
    assert_eq!(encoded, vec![1u8, 2, 0, 0, 0, b'h', b'i']);
}

#[test]
fn malformed_transmissions_are_rejected() {
    // Empty channel: no tag byte.
    assert!(matches!(
        decode_outcome(&Vec::new()),
        Err(ProtocolError::Malformed)
    ));
    // Unknown tag.
    assert!(matches!(
        decode_outcome(&vec![7u8]),
        Err(ProtocolError::Malformed)
    ));
    // Truncated length field.
    assert!(matches!(
        decode_outcome(&vec![1u8, 2, 0]),
        Err(ProtocolError::Malformed)
    ));
    // Length field promising more bytes than the channel holds.
    assert!(matches!(
        decode_outcome(&vec![1u8, 5, 0, 0, 0, b'x']),
        Err(ProtocolError::Malformed)
    ));
}

#[test]
fn empty_failure_chain_round_trips() {
    let encoded = encode_outcome(&ChildOutcome::Failure(Vec::new()));
    assert_eq!(encoded, vec![1u8]);
    match decode_outcome(&encoded) {
        Ok(ChildOutcome::Failure(m)) => assert!(m.is_empty()),
        _ => panic!("expected an empty chain"),
    }
}
