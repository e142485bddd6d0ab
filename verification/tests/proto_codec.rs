use ssh3::proto::cbor::{cbor_decode, cbor_encode};
use ssh3::proto::codec::{ChannelId, ChannelStreamHeader, ConversationId, MessageType, SIGNAL_VALUE};
use ssh3::proto::varint::{decode_varint_sync, encode_varint_sync, VarInt};


// -- Newtype construction & Display -----------------------------------------

#[test]
fn conversation_id_new_and_inner() {
    let id = ConversationId::new(42);
    assert_eq!(id.into_inner(), 42);
}

#[test]
fn conversation_id_display() {
    let id = ConversationId::new(123);
    assert_eq!(id.to_string(), "conv:123");
}

#[test]
fn channel_id_new_and_inner() {
    let id = ChannelId::new(7);
    assert_eq!(id.into_inner(), 7);
}

#[test]
fn channel_id_display() {
    let id = ChannelId::new(5);
    assert_eq!(id.to_string(), "ch:5");
}

#[test]
fn message_type_constants() {
    assert_eq!(MessageType::new(MessageType::CHANNEL_OPEN).into_inner(), 90);
    assert_eq!(MessageType::new(MessageType::CHANNEL_OPEN_CONFIRMATION).into_inner(), 91);
    assert_eq!(MessageType::new(MessageType::CHANNEL_OPEN_FAILURE).into_inner(), 92);
    assert_eq!(MessageType::new(MessageType::CHANNEL_DATA).into_inner(), 94);
    assert_eq!(MessageType::new(MessageType::CHANNEL_EOF).into_inner(), 96);
    assert_eq!(MessageType::new(MessageType::CHANNEL_CLOSE).into_inner(), 97);
    assert_eq!(MessageType::new(MessageType::CHANNEL_REQUEST).into_inner(), 98);
    assert_eq!(MessageType::new(MessageType::CHANNEL_SUCCESS).into_inner(), 99);
    assert_eq!(MessageType::new(MessageType::CHANNEL_FAILURE).into_inner(), 100);
}

#[test]
fn message_type_display_known() {
    assert_eq!(MessageType::new(MessageType::CHANNEL_OPEN).to_string(), "CHANNEL_OPEN");
    assert_eq!(MessageType::new(MessageType::CHANNEL_DATA).to_string(), "CHANNEL_DATA");
    assert_eq!(MessageType::new(MessageType::CHANNEL_CLOSE).to_string(), "CHANNEL_CLOSE");
}

#[test]
fn message_type_display_unknown() {
    let mt = MessageType::new(255);
    assert_eq!(mt.to_string(), "MSG(255)");
}

#[test]
fn signal_value_constant() {
    assert_eq!(SIGNAL_VALUE, 0xaf3627e6);
}

// -- CBOR roundtrip tests ---------------------------------------------------

#[test]
fn conversation_id_cbor_roundtrip() {
    let id = ConversationId::new(42);
    let bytes = cbor_encode(&id.to_value()).unwrap();
    let decoded = ConversationId::from_value(&cbor_decode(&bytes).unwrap()).unwrap();
    assert_eq!(id, decoded);
}

#[test]
fn conversation_id_cbor_roundtrip_zero() {
    let id = ConversationId::new(0);
    let bytes = cbor_encode(&id.to_value()).unwrap();
    let decoded = ConversationId::from_value(&cbor_decode(&bytes).unwrap()).unwrap();
    assert_eq!(id, decoded);
}

#[test]
fn conversation_id_cbor_roundtrip_max() {
    let id = ConversationId::new(u64::MAX);
    let bytes = cbor_encode(&id.to_value()).unwrap();
    let decoded = ConversationId::from_value(&cbor_decode(&bytes).unwrap()).unwrap();
    assert_eq!(id, decoded);
}

#[test]
fn channel_id_cbor_roundtrip() {
    let id = ChannelId::new(7);
    let bytes = cbor_encode(&id.to_value()).unwrap();
    let decoded = ChannelId::from_value(&cbor_decode(&bytes).unwrap()).unwrap();
    assert_eq!(id, decoded);
}

#[test]
fn channel_id_cbor_roundtrip_zero() {
    let id = ChannelId::new(0);
    let bytes = cbor_encode(&id.to_value()).unwrap();
    let decoded = ChannelId::from_value(&cbor_decode(&bytes).unwrap()).unwrap();
    assert_eq!(id, decoded);
}

#[test]
fn channel_id_cbor_roundtrip_max() {
    let id = ChannelId::new(u32::MAX);
    let bytes = cbor_encode(&id.to_value()).unwrap();
    let decoded = ChannelId::from_value(&cbor_decode(&bytes).unwrap()).unwrap();
    assert_eq!(id, decoded);
}

// -- CBOR hex dump tests ---------------------------------------------------

#[test]
fn cbor_encode_conversation_id_hex() {
    // ConversationId is a newtype struct wrapping u64.
    // ciborium encodes newtype structs transparently, so
    // ConversationId(0) → CBOR unsigned int 0 → 0x00
    let id = ConversationId::new(0);
    let bytes = cbor_encode(&id.to_value()).unwrap();
    assert_eq!(
        &bytes[..],
        &[0x00],
        "ConversationId(0) should encode as CBOR uint 0"
    );

    // ConversationId(23) → CBOR unsigned int 23 → 0x17
    let id = ConversationId::new(23);
    let bytes = cbor_encode(&id.to_value()).unwrap();
    assert_eq!(
        &bytes[..],
        &[0x17],
        "ConversationId(23) should encode as CBOR uint 23"
    );

    // ConversationId(24) → CBOR unsigned int 24 → 0x18 0x18
    let id = ConversationId::new(24);
    let bytes = cbor_encode(&id.to_value()).unwrap();
    assert_eq!(
        &bytes[..],
        &[0x18, 0x18],
        "ConversationId(24) should encode as CBOR uint 24"
    );

    // ConversationId(1000) → CBOR unsigned int 1000 → 0x19 0x03 0xe8
    let id = ConversationId::new(1000);
    let bytes = cbor_encode(&id.to_value()).unwrap();
    assert_eq!(
        &bytes[..],
        &[0x19, 0x03, 0xe8],
        "ConversationId(1000) should encode as CBOR uint 1000"
    );
}

#[test]
fn cbor_encode_channel_id_hex() {
    // ChannelId(0) → CBOR uint 0 → 0x00
    let id = ChannelId::new(0);
    let bytes = cbor_encode(&id.to_value()).unwrap();
    assert_eq!(&bytes[..], &[0x00]);

    // ChannelId(255) → CBOR uint 255 → 0x18 0xff
    let id = ChannelId::new(255);
    let bytes = cbor_encode(&id.to_value()).unwrap();
    assert_eq!(&bytes[..], &[0x18, 0xff]);
}

// -- Channel stream header tests -------------------------------------------

#[test]
fn channel_stream_header_roundtrip() {
    let header =
        ChannelStreamHeader::new(ConversationId::new(42), "session".to_string(), 65536);
    let encoded = header.encode_to_vec().unwrap();
    let (decoded, consumed) = ChannelStreamHeader::decode_from_slice(&encoded).unwrap();
    assert_eq!(decoded, header);
    assert_eq!(consumed, encoded.len());
}

#[test]
fn channel_stream_header_signal_value_present() {
    let header = ChannelStreamHeader::new(ConversationId::new(0), "session".to_string(), 1024);
    let encoded = header.encode_to_vec().unwrap();

    // The first bytes should be the varint-encoded SIGNAL_VALUE (0xaf3627e6).
    // 0xaf3627e6 = 2_939_602_918, which is >= 2^30 so it encodes as 8-byte varint.
    let (signal, _) = decode_varint_sync(&encoded).unwrap();
    assert_eq!(signal.into_inner(), SIGNAL_VALUE as u64);
}

#[test]
fn channel_stream_header_invalid_signal() {
    // Construct bytes with wrong signal value (varint 0x00 instead of 0xaf3627e6)
    let data = [0x00]; // varint 0
    let result = ChannelStreamHeader::decode_from_slice(&data);
    assert!(result.is_err());
    let err = result.unwrap_err();
    assert!(
        err.to_string().contains("invalid signal value"),
        "error should mention invalid signal, got: {err:?}"
    );
}

#[test]
fn channel_stream_header_empty_channel_type() {
    let header = ChannelStreamHeader::new(ConversationId::new(99), String::new(), 512);
    let encoded = header.encode_to_vec().unwrap();
    let (decoded, _) = ChannelStreamHeader::decode_from_slice(&encoded).unwrap();
    assert_eq!(decoded.channel_type, "");
    assert_eq!(decoded.conversation_id, ConversationId::new(99));
    assert_eq!(decoded.max_message_size, 512);
}

#[test]
fn channel_stream_header_long_channel_type() {
    let long_type = "x".repeat(300);
    let header = ChannelStreamHeader::new(ConversationId::new(1), long_type.clone(), 4096);
    let encoded = header.encode_to_vec().unwrap();
    let (decoded, consumed) = ChannelStreamHeader::decode_from_slice(&encoded).unwrap();
    assert_eq!(decoded.channel_type, long_type);
    assert_eq!(consumed, encoded.len());
}

#[test]
fn channel_stream_header_incomplete_data() {
    let header =
        ChannelStreamHeader::new(ConversationId::new(42), "session".to_string(), 65536);
    let encoded = header.encode_to_vec().unwrap();

    // Truncate at various points — all should return Incomplete
    for truncate_at in 1..encoded.len() {
        let result = ChannelStreamHeader::decode_from_slice(&encoded[..truncate_at]);
        assert!(
            result.is_err(),
            "should fail with truncated data at byte {truncate_at}"
        );
    }
}

// -- Varint sync roundtrip tests -------------------------------------------

#[test]
fn varint_sync_roundtrip_small() {
    let vi = VarInt::from_u64(0).unwrap();
    let mut buf = Vec::new();
    encode_varint_sync(vi, &mut buf);
    let (decoded, n) = decode_varint_sync(&buf).unwrap();
    assert_eq!(decoded.into_inner(), 0);
    assert_eq!(n, 1);
}

#[test]
fn varint_sync_roundtrip_1byte() {
    let vi = VarInt::from_u64(63).unwrap(); // max 1-byte varint
    let mut buf = Vec::new();
    encode_varint_sync(vi, &mut buf);
    assert_eq!(buf.len(), 1);
    let (decoded, n) = decode_varint_sync(&buf).unwrap();
    assert_eq!(decoded.into_inner(), 63);
    assert_eq!(n, 1);
}

#[test]
fn varint_sync_roundtrip_2byte() {
    let vi = VarInt::from_u64(64).unwrap(); // min 2-byte varint
    let mut buf = Vec::new();
    encode_varint_sync(vi, &mut buf);
    assert_eq!(buf.len(), 2);
    let (decoded, n) = decode_varint_sync(&buf).unwrap();
    assert_eq!(decoded.into_inner(), 64);
    assert_eq!(n, 2);
}

#[test]
fn varint_sync_roundtrip_4byte() {
    let vi = VarInt::from_u64(16384).unwrap(); // min 4-byte varint
    let mut buf = Vec::new();
    encode_varint_sync(vi, &mut buf);
    assert_eq!(buf.len(), 4);
    let (decoded, n) = decode_varint_sync(&buf).unwrap();
    assert_eq!(decoded.into_inner(), 16384);
    assert_eq!(n, 4);
}

#[test]
fn varint_sync_roundtrip_8byte() {
    // SIGNAL_VALUE = 0xaf3627e6 is > 2^30, needs 8-byte varint
    let vi = VarInt::from_u64(SIGNAL_VALUE as u64).unwrap();
    let mut buf = Vec::new();
    encode_varint_sync(vi, &mut buf);
    assert_eq!(buf.len(), 8);
    let (decoded, n) = decode_varint_sync(&buf).unwrap();
    assert_eq!(decoded.into_inner(), SIGNAL_VALUE as u64);
    assert_eq!(n, 8);
}

// -- Error case tests ------------------------------------------------------

#[test]
fn cbor_decode_invalid_data() {
    let garbage = [0xff, 0xfe, 0xfd];
    let result = cbor_decode(&garbage);
    assert!(result.is_err());
}

#[test]
fn cbor_decode_empty() {
    let result = cbor_decode(&[]);
    assert!(result.is_err());
}

#[test]
fn varint_takes_values_below_its_end_only() {
    assert!(VarInt::from_u64(0x3fff_ffff_ffff_ffff).is_some());
    assert!(VarInt::from_u64(0x4000_0000_0000_0000).is_none());
}

#[test]
fn varint_bytes_are_exact() {
    let cases: [(u64, &[u8]); 5] = [
        (37, &[0x25]),
        (15293, &[0x7b, 0xbd]),
        (494_878_333, &[0x9d, 0x7f, 0x3e, 0x7d]),
        (
            151_288_809_941_952_652,
            &[0xc2, 0x19, 0x7c, 0x5e, 0xff, 0x14, 0xe8, 0x8c],
        ),
        (
            0x3fff_ffff_ffff_ffff,
            &[0xff, 0xff, 0xff, 0xff, 0xff, 0xff, 0xff, 0xff],
        ),
    ];
    for (value, expected) in cases {
        let mut buf = Vec::new();
        encode_varint_sync(VarInt::from_u64(value).unwrap(), &mut buf);
        assert_eq!(buf, expected);
        let (decoded, n) = decode_varint_sync(&buf).unwrap();
        assert_eq!(decoded.into_inner(), value);
        assert_eq!(n, expected.len());
    }
}

#[test]
fn channel_stream_header_rejects_values_that_do_not_fit() {
    let header = ChannelStreamHeader::new(
        ConversationId::new(0x4000_0000_0000_0000),
        "session".to_string(),
        1,
    );
    assert_eq!(
        header.encode_to_vec().unwrap_err().to_string(),
        "value overflows QUIC VarInt range"
    );
}

#[test]
fn channel_stream_header_bytes_are_exact() {
    let header = ChannelStreamHeader::new(ConversationId::new(4), "a".to_string(), 64);
    assert_eq!(
        header.encode_to_vec().unwrap(),
        vec![0xc0, 0, 0, 0, 0xaf, 0x36, 0x27, 0xe6, 4, 1, b'a', 0x40, 0x40]
    );
}

#[test]
fn channel_stream_header_rejects_text_that_is_not_utf8() {
    let bytes = [0xc0, 0, 0, 0, 0xaf, 0x36, 0x27, 0xe6, 4, 1, 0xff, 1];
    assert_eq!(
        ChannelStreamHeader::decode_from_slice(&bytes)
            .unwrap_err()
            .to_string(),
        "channel type is not valid UTF-8"
    );
}

#[test]
fn identifiers_do_not_take_other_values() {
    let text = cbor_decode(&[0x61, 0x61]).unwrap();
    assert!(ConversationId::from_value(&text).is_none());
    let large = cbor_decode(&[0x1b, 0, 0, 0, 1, 0, 0, 0, 0]).unwrap();
    assert!(ChannelId::from_value(&large).is_none());
    assert_eq!(
        ConversationId::from_value(&large),
        Some(ConversationId::new(0x1_0000_0000))
    );
}
