//! Frames, their validation and their wire format.

use ferrotunnel::codec::{CodecError, TunnelCodec, FLAG_EOS, FRAME_TYPE_CONTROL, FRAME_TYPE_DATA};
use ferrotunnel::config::LimitsConfig;
use ferrotunnel::constants::MAX_FRAME_SIZE;
use ferrotunnel::frame::{
    CloseReason, ErrorCode, Frame, HandshakeFrame, HandshakeStatus, Metadata, OpenStreamFrame,
    Protocol, RegisterStatus, StreamPriority, StreamStatus, ZeroCopyFrame,
};
use ferrotunnel::validation::{validate_frame, ValidationError, ValidationLimits};
use ferrotunnel::wire::{decode_control, encode_control};

fn put_u32(buf: &mut Vec<u8>, n: u32) {
    buf.extend_from_slice(&n.to_be_bytes());
}

fn metadata_of(count: usize) -> Metadata {
    let mut metadata = Metadata::new();
    for i in 0..count {
        metadata.insert(format!("k{i}"), "v".to_string());
    }
    metadata
}

fn handshake() -> Frame {
    Frame::Handshake(Box::new(HandshakeFrame {
        token: "test-token".to_string(),
        tunnel_id: Some("test-tunnel".to_string()),
        min_version: 1,
        max_version: 1,
        capabilities: vec!["http".to_string()],
    }))
}

fn one_of_each() -> Vec<Frame> {
    let mut metadata = Metadata::new();
    metadata.insert("region".to_string(), "eu".to_string());
    metadata.insert("tier".to_string(), "gold".to_string());
    vec![
        handshake(),
        Frame::HandshakeAck {
            session_id: 0x0011_2233_4455_6677_8899_aabb_ccdd_eeff,
            status: HandshakeStatus::TunnelIdTaken,
            version: 1,
            server_capabilities: vec!["basic".to_string(), "tcp".to_string()],
        },
        Frame::Register {
            service_name: "svc".to_string(),
            protocol: Protocol::GRPC,
            metadata,
        },
        Frame::RegisterAck {
            public_url: "https://a.example".to_string(),
            status: RegisterStatus::QuotaExceeded,
        },
        Frame::OpenStream(Box::new(OpenStreamFrame {
            stream_id: 70_000,
            protocol: Protocol::WebSocket,
            headers: vec![("host".to_string(), "é".to_string())],
            body_hint: Some(u64::MAX),
            priority: StreamPriority::Critical,
        })),
        Frame::StreamAck { stream_id: 300, status: StreamStatus::BackpressureApplied },
        Frame::Data { stream_id: 9, data: vec![1, 2, 3], end_of_stream: true },
        Frame::CloseStream { stream_id: 1, reason: CloseReason::Error("gone".to_string()) },
        Frame::CloseStream { stream_id: 1, reason: CloseReason::ProtocolViolation },
        Frame::Heartbeat { timestamp: 12_345_678_901 },
        Frame::HeartbeatAck { timestamp: 250 },
        Frame::Error {
            stream_id: None,
            code: ErrorCode::ServiceUnavailable,
            message: "later".to_string(),
        },
        Frame::PluginData { plugin_id: "p".to_string(), data: vec![0, 255] },
    ]
}

#[test]
fn test_codec_round_trip() {
    let codec = TunnelCodec::new();
    let mut buf = Vec::new();

    let frame = Frame::Heartbeat { timestamp: 12345 };

    codec.encode(&frame, &mut buf).unwrap();
    let decoded = codec.decode(&mut buf).unwrap().unwrap();

    assert_eq!(frame, decoded);
}

#[test]
fn decode_rejects_oversized_register_metadata() {
    let codec = TunnelCodec::new();
    let frame = Frame::Register {
        service_name: "svc".into(),
        protocol: Protocol::HTTP,
        metadata: metadata_of(1000),
    };

    let mut buf = Vec::new();
    codec.encode(&frame, &mut buf).expect("encode fits in frame size");

    let err = codec.decode(&mut buf).expect_err("decode must reject");
    assert_eq!(
        err,
        CodecError::Invalid(ValidationError::TooManyEntries { count: 1000, limit: 64 })
    );
    assert!(err.message().contains("validation"));
}

#[test]
fn decode_rejects_oversized_openstream_headers() {
    let codec = TunnelCodec::new();
    let headers = (0..1000).map(|i| (format!("h{i}"), "v".to_string())).collect();
    let frame = Frame::OpenStream(Box::new(OpenStreamFrame {
        stream_id: 1,
        protocol: Protocol::HTTP,
        headers,
        body_hint: None,
        priority: StreamPriority::default(),
    }));

    let mut buf = Vec::new();
    codec.encode(&frame, &mut buf).expect("encode fits in frame size");

    let err = codec.decode(&mut buf).expect_err("decode must reject");
    assert!(matches!(err, CodecError::Invalid(ValidationError::TooManyEntries { .. })));
    assert!(err.message().contains("validation"));
}

#[test]
fn test_data_frame_round_trip() {
    let codec = TunnelCodec::new();
    let mut buf = Vec::new();

    let frame = Frame::Data { stream_id: 42, data: b"hello world".to_vec(), end_of_stream: true };

    codec.encode(&frame, &mut buf).unwrap();
    let decoded = codec.decode(&mut buf).unwrap().unwrap();

    assert_eq!(frame, decoded);
}

#[test]
fn test_partial_frame() {
    let codec = TunnelCodec::new();
    let mut buf = Vec::new();

    let frame = Frame::Data { stream_id: 1, data: b"hello world".to_vec(), end_of_stream: false };

    codec.encode(&frame, &mut buf).unwrap();

    let full_len = buf.len();
    let rest = buf.split_off(full_len / 2);
    let mut partial = buf;

    let result = codec.decode(&mut partial);
    assert!(result.unwrap().is_none());

    partial.extend_from_slice(&rest);
    let decoded = codec.decode(&mut partial).unwrap();
    assert!(decoded.is_some());
}

#[test]
fn test_multiple_frames() {
    let codec = TunnelCodec::new();
    let mut buf = Vec::new();

    let frames = vec![
        Frame::Heartbeat { timestamp: 1 },
        Frame::Heartbeat { timestamp: 2 },
        Frame::Heartbeat { timestamp: 3 },
    ];

    for frame in &frames {
        codec.encode(frame, &mut buf).unwrap();
    }

    for expected in &frames {
        let decoded = codec.decode(&mut buf).unwrap().unwrap();
        assert_eq!(*expected, decoded);
    }

    assert_eq!(buf.len(), 0);
}

#[test]
fn test_max_frame_size() {
    let codec = TunnelCodec::new();
    let mut buf = Vec::new();

    let large_data = vec![0u8; (MAX_FRAME_SIZE + 1) as usize];
    let frame = Frame::Data { stream_id: 1, data: large_data, end_of_stream: false };

    let result = codec.encode(&frame, &mut buf);
    assert!(result.is_err());
}

#[test]
fn test_large_data_frame() {
    let codec = TunnelCodec::new();
    let mut buf = Vec::new();

    let data = vec![0xAB; 16 * 1024];
    let frame = Frame::Data { stream_id: 999, data: data.clone(), end_of_stream: false };

    codec.encode(&frame, &mut buf).unwrap();
    let decoded = codec.decode(&mut buf).unwrap().unwrap();

    if let Frame::Data { stream_id, data: decoded_data, end_of_stream } = decoded {
        assert_eq!(stream_id, 999);
        assert_eq!(decoded_data, data);
        assert!(!end_of_stream);
    } else {
        panic!("Expected Data frame");
    }
}

#[test]
fn test_frame_size_validation_on_decode() {
    let codec = TunnelCodec::with_max_frame_size(100);
    let mut buf = Vec::new();

    put_u32(&mut buf, 1000);
    buf.push(FRAME_TYPE_DATA);
    buf.extend_from_slice(&[0u8; 10]);

    let result = codec.decode(&mut buf);
    assert!(result.is_err());
    assert_eq!(result, Err(CodecError::TooLarge { length: 1000, max: 100 }));
}

#[test]
fn test_from_limits_enforces_configured_frame_size() {
    let limits = LimitsConfig { max_frame_bytes: 8, ..Default::default() };
    let codec = TunnelCodec::from_limits(&limits);
    assert_eq!(codec.max_frame_size(), 8);
    let mut buf = Vec::new();

    let frame = Frame::Data { stream_id: 1, data: b"abc".to_vec(), end_of_stream: false };

    let result = codec.encode(&frame, &mut buf);
    assert!(result.is_err());
}

#[test]
fn test_zero_length_frame_rejected() {
    let codec = TunnelCodec::new();
    let mut buf = Vec::new();

    put_u32(&mut buf, 0);
    buf.push(FRAME_TYPE_CONTROL);
    let result = codec.decode(&mut buf);
    assert!(result.is_err());
    assert_eq!(result, Err(CodecError::EmptyFrame));
}

#[test]
fn test_decode_batch() {
    let codec = TunnelCodec::new();
    let mut buf = Vec::new();
    codec.encode(&Frame::Heartbeat { timestamp: 1 }, &mut buf).unwrap();
    codec.encode(&Frame::Heartbeat { timestamp: 2 }, &mut buf).unwrap();
    codec.encode(&Frame::Heartbeat { timestamp: 3 }, &mut buf).unwrap();
    let total_len = buf.len();

    let mut out = Vec::new();
    let consumed = codec.decode_batch(&mut buf, &mut out).unwrap();
    assert_eq!(consumed, total_len);
    assert_eq!(out.len(), 3);
    assert!(matches!(out[0], Frame::Heartbeat { timestamp: 1 }));
    assert!(matches!(out[1], Frame::Heartbeat { timestamp: 2 }));
    assert!(matches!(out[2], Frame::Heartbeat { timestamp: 3 }));
}

#[test]
fn test_decode_data_frames_zerocopy() {
    let codec = TunnelCodec::new();
    let mut wire = Vec::new();
    put_u32(&mut wire, 6 + 4);
    wire.push(FRAME_TYPE_DATA);
    put_u32(&mut wire, 42);
    wire.push(FLAG_EOS);
    wire.extend_from_slice(b"abcd");

    let mut out = Vec::new();
    let consumed = codec.decode_data_frames_zerocopy(&wire, &mut out).unwrap();
    assert_eq!(consumed, 4 + 10);
    assert_eq!(out.len(), 1);
    match &out[0] {
        ZeroCopyFrame::Data { stream_id, data, fin } => {
            assert_eq!(*stream_id, 42);
            assert_eq!(*data, b"abcd");
            assert!(*fin);
        }
    }
    let owned = ZeroCopyFrame::to_owned(out[0]);
    assert!(matches!(owned, Frame::Data { stream_id: 42, end_of_stream: true, .. }));
}

#[test]
fn a_scan_for_data_frames_passes_over_the_others() {
    let codec = TunnelCodec::new();
    let mut wire = Vec::new();
    let data = Frame::Data { stream_id: 3, data: b"xy".to_vec(), end_of_stream: false };
    codec.encode(&data, &mut wire).unwrap();
    codec.encode(&Frame::Heartbeat { timestamp: 5 }, &mut wire).unwrap();
    codec.encode(&data, &mut wire).unwrap();
    let whole = wire.len();
    wire.extend_from_slice(&[0, 0, 0, 9, 1, 0]);

    let mut out = Vec::new();
    assert_eq!(codec.decode_data_frames_zerocopy(&wire, &mut out), Ok(whole));
    assert_eq!(out.len(), 2);
    assert_eq!(ZeroCopyFrame::to_owned(out[0]), data);
    assert_eq!(ZeroCopyFrame::to_owned(out[1]), data);

    let mut out = Vec::new();
    assert_eq!(
        codec.decode_data_frames_zerocopy(&[0, 0, 0, 0, 1], &mut out),
        Err(CodecError::InvalidLength { length: 0 })
    );
    assert_eq!(
        codec.decode_data_frames_zerocopy(&[0, 0, 0, 3, 1, 0, 0], &mut out),
        Err(CodecError::DataTooShort)
    );
}

#[test]
fn test_frame_serialization() {
    let frame = handshake();

    let encoded = encode_control(&frame);
    let decoded = decode_control(&encoded).unwrap();

    assert_eq!(frame, decoded);
}

#[test]
fn test_data_frame_with_bytes() {
    let data = b"hello world".to_vec();
    let frame = Frame::Data { stream_id: 42, data: data.clone(), end_of_stream: false };

    let encoded = encode_control(&frame);
    let decoded = decode_control(&encoded).unwrap();

    if let Frame::Data { data: decoded_data, .. } = decoded {
        assert_eq!(data, decoded_data);
    } else {
        panic!("Expected Data frame");
    }
}

#[test]
fn test_all_frame_types() {
    let frames = vec![
        Frame::Heartbeat { timestamp: 123_456 },
        Frame::HeartbeatAck { timestamp: 123_456 },
        Frame::CloseStream { stream_id: 1, reason: CloseReason::Normal },
        Frame::Error {
            stream_id: Some(1),
            code: ErrorCode::ProtocolError,
            message: "test error".to_string(),
        },
    ];

    for frame in frames {
        let encoded = encode_control(&frame);
        let decoded = decode_control(&encoded).unwrap();
        assert_eq!(frame, decoded);
    }
}

#[test]
fn every_frame_reads_back_as_it_was_written() {
    let codec = TunnelCodec::new();
    for frame in one_of_each() {
        let mut buf = Vec::new();
        codec.encode(&frame, &mut buf).unwrap();
        assert_eq!(codec.decode(&mut buf), Ok(Some(frame.clone())));
        assert!(buf.is_empty());
        assert_eq!(decode_control(&encode_control(&frame)), Ok(frame));
    }
}

#[test]
fn a_batch_reads_back_what_was_written_and_no_prefix_does() {
    let codec = TunnelCodec::new();
    let frames = one_of_each();
    let mut wire = Vec::new();
    for frame in &frames {
        codec.encode(frame, &mut wire).unwrap();
    }

    let mut all = wire.clone();
    let mut out = Vec::new();
    assert_eq!(codec.decode_batch(&mut all, &mut out), Ok(wire.len()));
    assert_eq!(out, frames);
    assert!(all.is_empty());

    let mut first = Vec::new();
    codec.encode(&frames[0], &mut first).unwrap();
    for cut in 0..first.len() {
        let mut prefix = first[..cut].to_vec();
        assert_eq!(codec.decode(&mut prefix), Ok(None));
        assert_eq!(prefix, first[..cut].to_vec());
    }
}

#[test]
fn bytes_on_the_wire() {
    let codec = TunnelCodec::new();

    let mut buf = Vec::new();
    let data = Frame::Data { stream_id: 258, data: b"hi".to_vec(), end_of_stream: true };
    codec.encode(&data, &mut buf).unwrap();
    assert_eq!(buf, vec![0, 0, 0, 8, 1, 0, 0, 1, 2, 1, b'h', b'i']);

    let mut buf = Vec::new();
    codec.encode(&Frame::Heartbeat { timestamp: 250 }, &mut buf).unwrap();
    assert_eq!(buf, vec![0, 0, 0, 3, 0, 8, 250]);

    let mut buf = Vec::new();
    codec.encode(&Frame::HeartbeatAck { timestamp: 251 }, &mut buf).unwrap();
    assert_eq!(buf, vec![0, 0, 0, 5, 0, 9, 251, 251, 0]);

    assert_eq!(
        encode_control(&Frame::Heartbeat { timestamp: 65_536 }),
        vec![8, 252, 0, 0, 1, 0]
    );
    assert_eq!(
        encode_control(&Frame::Heartbeat { timestamp: 4_294_967_296 }),
        vec![8, 253, 0, 0, 0, 0, 1, 0, 0, 0]
    );
    assert_eq!(
        encode_control(&Frame::StreamAck { stream_id: 3, status: StreamStatus::Rejected }),
        vec![5, 3, 1]
    );
    assert_eq!(
        encode_control(&Frame::CloseStream {
            stream_id: 4,
            reason: CloseReason::Error("no".to_string())
        }),
        vec![7, 4, 2, 2, b'n', b'o']
    );
    assert_eq!(
        encode_control(&Frame::Handshake(Box::new(HandshakeFrame {
            token: "t".to_string(),
            tunnel_id: None,
            min_version: 1,
            max_version: 2,
            capabilities: vec!["a".to_string()],
        }))),
        vec![0, 1, b't', 0, 1, 2, 1, 1, b'a']
    );
    let ack = encode_control(&Frame::HandshakeAck {
        session_id: 1,
        status: HandshakeStatus::Success,
        version: 1,
        server_capabilities: Vec::new(),
    });
    assert_eq!(ack, vec![1, 16, 0, 0, 0, 0, 0, 0, 0, 0, 0, 0, 0, 0, 0, 0, 0, 1, 0, 1, 0]);
}

#[test]
fn the_fields_are_written_as_the_serialiser_writes_them() {
    let config = bincode_next::config::standard();

    let written = bincode_next::serde::encode_to_vec(
        (0u32, "token", Some("tunnel"), 1u8, 3u8, vec!["http", "tcp"]),
        config,
    )
    .unwrap();
    let frame = Frame::Handshake(Box::new(HandshakeFrame {
        token: "token".to_string(),
        tunnel_id: Some("tunnel".to_string()),
        min_version: 1,
        max_version: 3,
        capabilities: vec!["http".to_string(), "tcp".to_string()],
    }));
    assert_eq!(encode_control(&frame), written);
    assert_eq!(decode_control(&written), Ok(frame));

    let id = uuid::Uuid::from_u128(0x0011_2233_4455_6677_8899_aabb_ccdd_eeff);
    let written =
        bincode_next::serde::encode_to_vec((1u32, id, 5u32, 1u8, vec!["basic"]), config).unwrap();
    let frame = Frame::HandshakeAck {
        session_id: id.as_u128(),
        status: HandshakeStatus::TunnelIdTaken,
        version: 1,
        server_capabilities: vec!["basic".to_string()],
    };
    assert_eq!(encode_control(&frame), written);
    assert_eq!(decode_control(&written), Ok(frame));

    let written = bincode_next::serde::encode_to_vec(
        (4u32, 70_000u32, 3u32, vec![("k", "v")], Some(300u64), 2u32),
        config,
    )
    .unwrap();
    let decoded = decode_control(&written).unwrap();
    assert_eq!(encode_control(&decoded), written);

    let written = bincode_next::serde::encode_to_vec(
        (6u32, 9u32, bytes::Bytes::from_static(b"abc"), true),
        config,
    )
    .unwrap();
    let frame = Frame::Data { stream_id: 9, data: b"abc".to_vec(), end_of_stream: true };
    assert_eq!(encode_control(&frame), written);
    assert_eq!(decode_control(&written), Ok(frame));
}

#[test]
fn malformed_frames_are_refused() {
    let codec = TunnelCodec::new();

    let mut buf = vec![0, 0, 0, 2, 0, 99];
    let no_such_frame =
        "OtherString(\"invalid value: integer `99`, expected variant index 0 <= i < 12\")";
    let error = codec.decode(&mut buf).unwrap_err();
    assert_eq!(error, CodecError::Malformed(no_such_frame.to_string()));
    assert_eq!(error.message(), format!("Decode error: {no_such_frame}"));

    let mut buf = vec![0, 0, 0, 1, 7];
    assert_eq!(codec.decode(&mut buf), Err(CodecError::UnknownType(7)));

    let mut buf = vec![0, 0, 0, 5, 1, 0, 0, 0, 1];
    assert_eq!(codec.decode(&mut buf), Err(CodecError::DataTooShort));

    assert_eq!(decode_control(&[]), Err("UnexpectedEnd { additional: 1 }".to_string()));
    assert_eq!(
        decode_control(&[0, 5, b'a']),
        Err("OtherString(\"invalid length 0, expected struct HandshakeFrame with 5 elements\")"
            .to_string())
    );
    assert!(decode_control(&[0, 2, 0xff, 0xff, 0, 1, 1, 0]).unwrap_err().starts_with("Utf8"));
}

#[test]
fn codec_errors_as_messages() {
    assert_eq!(CodecError::EmptyFrame.message(), "Frame length must be at least 1 byte");
    assert_eq!(
        CodecError::TooLarge { length: 1000, max: 100 }.message(),
        "Frame too large: 1000 bytes (max: 100)"
    );
    assert_eq!(CodecError::InvalidLength { length: 5 }.message(), "Invalid frame length: 5");
    assert_eq!(CodecError::DataTooShort.message(), "Data frame payload too short");
    assert_eq!(
        CodecError::Malformed("LimitExceeded".to_string()).message(),
        "Decode error: LimitExceeded"
    );
    assert_eq!(
        CodecError::Invalid(ValidationError::TooManyEntries { count: 65, limit: 64 }).message(),
        "Frame validation: Too many entries: 65 exceeds limit of 64"
    );
    assert_eq!(CodecError::UnknownType(9).message(), "Unknown frame type: 9");
}

#[test]
fn test_validation_limits_from_limits_config() {
    let limits = LimitsConfig {
        max_frame_bytes: 4096,
        max_token_len: 32,
        max_capabilities: 4,
        max_capability_len: 16,
        ..Default::default()
    };
    let validation = ValidationLimits::from(&limits);

    assert_eq!(validation.max_frame_bytes, 4096);
    assert_eq!(validation.max_payload_bytes, 4096);
    assert_eq!(validation.max_token_len, 32);
    assert_eq!(validation.max_capabilities, 4);
    assert_eq!(validation.max_capability_len, 16);
}

#[test]
fn rejects_register_with_oversized_metadata_map() {
    let limits = ValidationLimits::default();
    let frame = Frame::Register {
        service_name: "svc".into(),
        protocol: Protocol::HTTP,
        metadata: metadata_of(limits.max_metadata_entries + 1),
    };
    assert!(matches!(
        validate_frame(&frame, &limits),
        Err(ValidationError::TooManyEntries { .. })
    ));
}

#[test]
fn rejects_openstream_with_too_many_headers() {
    let limits = ValidationLimits::default();
    let headers =
        (0..=limits.max_headers).map(|i| (format!("h{i}"), "v".to_string())).collect();
    let frame = Frame::OpenStream(Box::new(OpenStreamFrame {
        stream_id: 1,
        protocol: Protocol::HTTP,
        headers,
        body_hint: None,
        priority: StreamPriority::default(),
    }));
    assert!(matches!(
        validate_frame(&frame, &limits),
        Err(ValidationError::TooManyEntries { .. })
    ));
}

#[test]
fn accepts_well_formed_register() {
    let limits = ValidationLimits::default();
    let frame = Frame::Register {
        service_name: "svc".into(),
        protocol: Protocol::HTTP,
        metadata: Metadata::new(),
    };
    assert!(validate_frame(&frame, &limits).is_ok());
}

#[test]
fn rejects_registerack_with_oversized_url() {
    let limits = ValidationLimits::default();
    let frame = Frame::RegisterAck {
        public_url: "x".repeat(limits.max_url_len + 1),
        status: RegisterStatus::Success,
    };
    assert!(matches!(validate_frame(&frame, &limits), Err(ValidationError::FieldTooLong { .. })));
}

#[test]
fn rejects_handshake_with_oversized_tunnel_id() {
    let limits = ValidationLimits::default();
    let frame = Frame::Handshake(Box::new(HandshakeFrame {
        token: "t".into(),
        tunnel_id: Some("x".repeat(limits.max_name_len + 1)),
        min_version: 1,
        max_version: 1,
        capabilities: Vec::new(),
    }));
    assert!(matches!(validate_frame(&frame, &limits), Err(ValidationError::FieldTooLong { .. })));
}

#[test]
fn rejects_handshake_with_inverted_version_range() {
    let limits = ValidationLimits::default();
    let frame = Frame::Handshake(Box::new(HandshakeFrame {
        token: "t".into(),
        tunnel_id: None,
        min_version: 2,
        max_version: 1,
        capabilities: Vec::new(),
    }));
    assert!(matches!(
        validate_frame(&frame, &limits),
        Err(ValidationError::InvalidVersionRange { min: 2, max: 1 })
    ));
}

#[test]
fn rejects_close_stream_with_oversized_error_reason() {
    let limits = ValidationLimits::default();
    let frame = Frame::CloseStream {
        stream_id: 1,
        reason: CloseReason::Error("x".repeat(limits.max_error_message_len + 1)),
    };
    assert!(matches!(validate_frame(&frame, &limits), Err(ValidationError::FieldTooLong { .. })));
}

#[test]
fn accepts_close_stream_without_error_reason() {
    let limits = ValidationLimits::default();
    let frame = Frame::CloseStream { stream_id: 1, reason: CloseReason::Normal };
    assert!(validate_frame(&frame, &limits).is_ok());
}

#[test]
fn each_oversized_field_has_its_error() {
    let limits = ValidationLimits {
        max_token_len: 4,
        max_capabilities: 1,
        max_capability_len: 3,
        max_payload_bytes: 2,
        ..ValidationLimits::default()
    };
    let handshake = |token: &str, capabilities: Vec<String>| {
        Frame::Handshake(Box::new(HandshakeFrame {
            token: token.to_string(),
            tunnel_id: None,
            min_version: 1,
            max_version: 1,
            capabilities,
        }))
    };
    assert_eq!(
        validate_frame(&handshake("five5", Vec::new()), &limits),
        Err(ValidationError::TokenTooLong { len: 5, limit: 4 })
    );
    // Lengths are in bytes.
    assert_eq!(
        validate_frame(&handshake("éé€", Vec::new()), &limits),
        Err(ValidationError::TokenTooLong { len: 7, limit: 4 })
    );
    assert_eq!(
        validate_frame(&handshake("t", vec!["a".to_string(), "b".to_string()]), &limits),
        Err(ValidationError::TooManyCapabilities { count: 2, limit: 1 })
    );
    assert_eq!(
        validate_frame(&handshake("t", vec!["abcd".to_string()]), &limits),
        Err(ValidationError::CapabilityTooLong { len: 4, limit: 3 })
    );
    assert_eq!(
        validate_frame(
            &Frame::Data { stream_id: 1, data: vec![1, 2, 3], end_of_stream: false },
            &limits
        ),
        Err(ValidationError::PayloadTooLarge { size: 3, limit: 2 })
    );
    assert_eq!(validate_frame(&handshake("four", vec!["abc".to_string()]), &limits), Ok(()));
}

#[test]
fn validation_errors_as_messages() {
    assert_eq!(
        ValidationError::FrameTooLarge { size: 11, limit: 10 }.message(),
        "Frame too large: 11 bytes exceeds limit of 10 bytes"
    );
    assert_eq!(
        ValidationError::TokenTooLong { len: 5, limit: 4 }.message(),
        "Token too long: 5 bytes exceeds limit of 4 bytes"
    );
    assert_eq!(
        ValidationError::TooManyCapabilities { count: 2, limit: 1 }.message(),
        "Too many capabilities: 2 exceeds limit of 1"
    );
    assert_eq!(
        ValidationError::InvalidVersionRange { min: 2, max: 1 }.message(),
        "Invalid version range: min_version 2 exceeds max_version 1"
    );
}

#[test]
fn metadata_keeps_one_value_per_key() {
    let mut metadata = Metadata::new();
    metadata.insert("a".to_string(), "1".to_string());
    metadata.insert("b".to_string(), "2".to_string());
    metadata.insert("a".to_string(), "3".to_string());
    assert_eq!(metadata.len(), 2);
    assert_eq!(metadata.get("a"), Some("3"));
    assert_eq!(metadata.get("c"), None);

    let mut other = Metadata::new();
    other.insert("b".to_string(), "2".to_string());
    assert!(metadata != other);
    other.insert("a".to_string(), "3".to_string());
    assert!(metadata == other);
}

#[test]
fn the_first_fault_of_a_control_frame_is_named() {
    let config = bincode_next::config::standard();
    let unknown: Result<(Result<u8, u8>, usize), _> =
        bincode_next::serde::decode_from_slice(&[9, 0], config);
    assert_eq!(
        unknown.unwrap_err().to_string(),
        "OtherString(\"invalid value: integer `9`, expected `Ok` or `Err`\")"
    );
    let no_variant = |n: u32, count: u32| {
        Err(format!(
            "OtherString(\"invalid value: integer `{n}`, expected variant index 0 <= i < {count}\")"
        ))
    };
    let lacks = |field: usize, what: &str| {
        Err(format!("OtherString(\"invalid length {field}, expected {what}\")"))
    };

    let register = "struct variant Frame::Register with 3 elements";

    // Registration: a protocol that is none, and metadata that is cut off.
    assert_eq!(decode_control(&[2, 1, b'a', 9, 0]), no_variant(9, 7));
    assert_eq!(decode_control(&[2, 1, b'a', 9]), no_variant(9, 7));
    assert_eq!(decode_control(&[2, 1, b'a', 5]), lacks(2, register));
    assert_eq!(decode_control(&[2, 1]), lacks(0, register));
    // Registration response and stream acknowledgment: the status comes last.
    assert_eq!(decode_control(&[3, 0, 4]), no_variant(4, 4));
    assert_eq!(
        decode_control(&[3, 0]),
        lacks(1, "struct variant Frame::RegisterAck with 2 elements")
    );
    assert_eq!(decode_control(&[5, 1, 3]), no_variant(3, 3));
    assert_eq!(decode_control(&[5, 1]), lacks(1, "struct variant Frame::StreamAck with 2 elements"));
    // Stream open request: protocol, then headers, then priority.
    assert_eq!(decode_control(&[4, 1, 7]), no_variant(7, 7));
    assert_eq!(decode_control(&[4, 1, 7, 0, 0, 9]), no_variant(7, 7));
    assert_eq!(decode_control(&[4, 1, 5]), lacks(2, "struct OpenStreamFrame with 5 elements"));
    assert_eq!(decode_control(&[4, 1, 5, 0, 0, 9]), no_variant(9, 4));
    assert!(decode_control(&[4, 1, 5, 0, 0]).is_ok());
    assert_eq!(decode_control(&[4, 1, 5, 1, 1, b'k']), lacks(1, "a tuple of size 2"));
    assert_eq!(decode_control(&[6, 1]), lacks(1, "struct variant Frame::Data with 3 elements"));
    assert_eq!(decode_control(&[8]), lacks(0, "struct variant Frame::Heartbeat with 1 element"));
    assert_eq!(decode_control(&[9]), lacks(0, "struct variant Frame::HeartbeatAck with 1 element"));
    assert_eq!(
        decode_control(&[11, 0]),
        lacks(1, "struct variant Frame::PluginData with 2 elements")
    );
    // Stream close: the reason, then its message.
    assert_eq!(
        decode_control(&[7]),
        lacks(0, "struct variant Frame::CloseStream with 2 elements")
    );
    assert_eq!(decode_control(&[7, 1, 5]), no_variant(5, 5));
    assert_eq!(decode_control(&[7, 1, 2]), lacks(1, "struct variant Frame::CloseStream with 2 elements"));
    // Error frame: the code, then the message.
    assert_eq!(decode_control(&[10, 0, 7]), no_variant(7, 7));
    assert_eq!(decode_control(&[10, 0, 6]), lacks(2, "struct variant Frame::Error with 3 elements"));
    // Handshake acknowledgment: the status, then the version.
    let mut ack = vec![1, 16];
    ack.extend_from_slice(&[0; 16]);
    ack.push(6);
    assert_eq!(decode_control(&ack), no_variant(6, 6));
    ack.pop();
    ack.push(5);
    assert_eq!(decode_control(&ack), lacks(2, "struct variant Frame::HandshakeAck with 4 elements"));
}

#[test]
fn a_scan_finds_data_frames_whatever_their_flags() {
    let codec = TunnelCodec::new();
    let buf = vec![
        0, 0, 0, 7, 1, 0, 0, 0, 9, 0xfe, b'a', //
        0, 0, 0, 7, 1, 0, 0, 0, 9, 0xff, b'b', //
        0, 0, 0, 2, 1, 0, //
        0, 0, 0, 7, 1, 0, 0, 0, 9, 0, b'c',
    ];
    let mut scanned = Vec::new();
    assert_eq!(
        codec.decode_data_frames_zerocopy(&buf, &mut scanned),
        Err(CodecError::DataTooShort)
    );
    let scanned: Vec<Frame> = scanned.into_iter().map(|frame| frame.to_owned()).collect();
    let mut decoded = Vec::new();
    assert_eq!(codec.decode_batch(&mut buf.clone(), &mut decoded), Err(CodecError::DataTooShort));
    assert_eq!(scanned, decoded);
    assert_eq!(
        decoded,
        vec![
            Frame::Data { stream_id: 9, data: b"a".to_vec(), end_of_stream: false },
            Frame::Data { stream_id: 9, data: b"b".to_vec(), end_of_stream: true },
        ]
    );
}
