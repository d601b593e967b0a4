use graphpad_core::protocol::buttons;
use graphpad_core::protocol::{
    decode_frame, encode_frame, get_string, need_bytes, ButtonEvent, Config, Frame, FrameType,
    Heartbeat, Hello, HostHello, MappingMode, PenEvent, PressureCurve, ProtocolError,
};

fn sample_pen_event() -> PenEvent {
    PenEvent {
        timestamp_us: 1_234_567,
        x_norm: 0.5f32.to_bits(),
        y_norm: 0.25f32.to_bits(),
        pressure: 0.75f32.to_bits(),
        tilt_x: 0.1f32.to_bits(),
        tilt_y: (-0.2f32).to_bits(),
        buttons: buttons::STYLUS_PRIMARY,
        sequence: 42,
    }
}

#[test]
fn round_trip_pen_move() {
    let event = sample_pen_event();
    let frame = Frame::PenMove(event);
    let encoded = encode_frame(&frame);
    let decoded = decode_frame(&encoded).unwrap();
    match decoded {
        Frame::PenMove(e) => assert_eq!(e.sequence, 42),
        _ => panic!("wrong frame type"),
    }
}

#[test]
fn round_trip_hello() {
    let hello = Hello {
        protocol_version: 1,
        device_name: "iPad Pro".into(),
        screen_width_mm: 214.0f32.to_bits(),
        screen_height_mm: 273.0f32.to_bits(),
        max_pressure: 1.0f32.to_bits(),
    };
    let encoded = encode_frame(&Frame::Hello(hello));
    let decoded = decode_frame(&encoded).unwrap();
    match decoded {
        Frame::Hello(h) => assert_eq!(h.device_name, "iPad Pro"),
        _ => panic!("wrong frame type"),
    }
}

#[test]
fn pen_event_round_trip_keeps_every_field() {
    let event = sample_pen_event();
    for frame in [
        Frame::PenDown(event),
        Frame::PenMove(event),
        Frame::PenUp(event),
        Frame::PenHover(event),
    ] {
        let encoded = encode_frame(&frame);
        assert_eq!(encoded.len(), 8 + 33);
        let decoded = decode_frame(&encoded).unwrap();
        let (a, b) = match (&frame, &decoded) {
            (Frame::PenDown(a), Frame::PenDown(b)) => (a, b),
            (Frame::PenMove(a), Frame::PenMove(b)) => (a, b),
            (Frame::PenUp(a), Frame::PenUp(b)) => (a, b),
            (Frame::PenHover(a), Frame::PenHover(b)) => (a, b),
            _ => panic!("wrong frame type"),
        };
        assert_eq!(a, b);
        assert_eq!(f32::from_bits(b.tilt_y), -0.2f32);
    }
}

#[test]
fn heartbeat_encodes_exact_bytes() {
    let encoded = encode_frame(&Frame::Heartbeat(Heartbeat { timestamp_us: 0x0102_0304_0506_0708 }));
    assert_eq!(
        &encoded[..],
        &[b'G', b'P', b'A', b'D', 1, 7, 0, 8, 1, 2, 3, 4, 5, 6, 7, 8][..]
    );
}

#[test]
fn button_encodes_exact_bytes_and_round_trips() {
    let frame = Frame::Button(ButtonEvent { timestamp_us: 258, buttons: buttons::ERASER | buttons::BARREL });
    let encoded = encode_frame(&frame);
    assert_eq!(&encoded[..], &[b'G', b'P', b'A', b'D', 1, 6, 0, 9, 0, 0, 0, 0, 0, 0, 1, 2, 12][..]);
    match decode_frame(&encoded).unwrap() {
        Frame::Button(b) => {
            assert_eq!(b.timestamp_us, 258);
            assert_eq!(b.buttons, 12);
        }
        _ => panic!("wrong frame type"),
    }
}

#[test]
fn host_hello_round_trips_with_non_ascii_name() {
    let frame = Frame::HostHello(HostHello {
        protocol_version: 1,
        host_name: "Hôte ✏️".into(),
        tablet_width: 32767,
        tablet_height: 32766,
        pressure_max: 4096,
    });
    let encoded = encode_frame(&frame);
    let name_len = "Hôte ✏️".len();
    assert_eq!(encoded.len(), 8 + 2 + 2 + name_len + 12);
    assert_eq!(encoded[5], 9);
    match decode_frame(&encoded).unwrap() {
        Frame::HostHello(h) => {
            assert_eq!(h.protocol_version, 1);
            assert_eq!(h.host_name, "Hôte ✏️");
            assert_eq!(h.tablet_width, 32767);
            assert_eq!(h.tablet_height, 32766);
            assert_eq!(h.pressure_max, 4096);
        }
        _ => panic!("wrong frame type"),
    }
}

#[test]
fn config_round_trips() {
    let config = Config {
        mapping_mode: MappingMode::Relative,
        pressure_curve: PressureCurve::Soft,
        target_monitor: 3,
        area_left: 0.0f32.to_bits(),
        area_top: 0.1f32.to_bits(),
        area_right: 0.9f32.to_bits(),
        area_bottom: 1.0f32.to_bits(),
    };
    let encoded = encode_frame(&Frame::Config(config));
    assert_eq!(encoded.len(), 8 + 22);
    assert_eq!(encoded[8], 1);
    assert_eq!(encoded[9], 1);
    match decode_frame(&encoded).unwrap() {
        Frame::Config(c) => assert_eq!(c, config),
        _ => panic!("wrong frame type"),
    }
}

#[test]
fn config_unknown_mode_and_curve_bytes_decode_to_relative_and_firm() {
    let mut bytes = vec![b'G', b'P', b'A', b'D', 1, 8, 0, 22, 5, 7];
    bytes.extend_from_slice(&[0u8; 20]);
    match decode_frame(&bytes).unwrap() {
        Frame::Config(c) => {
            assert_eq!(c.mapping_mode, MappingMode::Relative);
            assert_eq!(c.pressure_curve, PressureCurve::Firm);
            assert_eq!(c.target_monitor, 0);
        }
        _ => panic!("wrong frame type"),
    }
}

#[test]
fn trailing_bytes_after_a_frame_are_ignored() {
    let mut bytes = encode_frame(&Frame::Heartbeat(Heartbeat { timestamp_us: 99 })).to_vec();
    bytes.extend_from_slice(&[0xff, 0xee, 0xdd]);
    match decode_frame(&bytes).unwrap() {
        Frame::Heartbeat(h) => assert_eq!(h.timestamp_us, 99),
        _ => panic!("wrong frame type"),
    }
}

#[test]
fn short_header_is_refused() {
    match decode_frame(&[b'G', b'P', b'A']) {
        Err(ProtocolError::PayloadTooShort { expected, actual }) => {
            assert_eq!(expected, 8);
            assert_eq!(actual, 3);
        }
        other => panic!("unexpected {:?}", other),
    }
}

#[test]
fn bad_magic_is_refused() {
    let bytes = [b'G', b'P', b'A', b'X', 1, 7, 0, 0];
    assert!(matches!(decode_frame(&bytes), Err(ProtocolError::InvalidMagic)));
}

#[test]
fn unsupported_version_is_refused() {
    let bytes = [b'G', b'P', b'A', b'D', 2, 7, 0, 0];
    assert!(matches!(decode_frame(&bytes), Err(ProtocolError::UnsupportedVersion(2))));
}

#[test]
fn unknown_frame_type_is_refused() {
    for t in [0u8, 10, 255] {
        let bytes = [b'G', b'P', b'A', b'D', 1, t, 0, 0];
        match decode_frame(&bytes) {
            Err(ProtocolError::UnknownFrameType(v)) => assert_eq!(v, t),
            other => panic!("unexpected {:?}", other),
        }
    }
}

#[test]
fn declared_length_longer_than_buffer_is_refused() {
    let bytes = [b'G', b'P', b'A', b'D', 1, 7, 0, 8, 1, 2, 3];
    match decode_frame(&bytes) {
        Err(ProtocolError::PayloadTooShort { expected, actual }) => {
            assert_eq!(expected, 8);
            assert_eq!(actual, 3);
        }
        other => panic!("unexpected {:?}", other),
    }
}

#[test]
fn payload_shorter_than_its_type_needs_is_refused() {
    let bytes = [b'G', b'P', b'A', b'D', 1, 3, 0, 4, 1, 2, 3, 4, 5, 6];
    match decode_frame(&bytes) {
        Err(ProtocolError::PayloadTooShort { expected, actual }) => {
            assert_eq!(expected, 33);
            assert_eq!(actual, 4);
        }
        other => panic!("unexpected {:?}", other),
    }
}

#[test]
fn invalid_utf8_name_is_refused() {
    let mut bytes = vec![b'G', b'P', b'A', b'D', 1, 1, 0, 18, 0, 1, 0, 2, 0xff, 0xfe];
    bytes.extend_from_slice(&[0u8; 12]);
    assert!(matches!(decode_frame(&bytes), Err(ProtocolError::InvalidUtf8)));
}

#[test]
fn hello_missing_fields_after_name_is_refused() {
    let bytes = [b'G', b'P', b'A', b'D', 1, 1, 0, 7, 0, 1, 0, 2, b'h', b'i', 0];
    match decode_frame(&bytes) {
        Err(ProtocolError::PayloadTooShort { expected, actual }) => {
            assert_eq!(expected, 12);
            assert_eq!(actual, 1);
        }
        other => panic!("unexpected {:?}", other),
    }
}

#[test]
fn frame_type_bytes() {
    let all = [
        FrameType::Hello,
        FrameType::PenDown,
        FrameType::PenMove,
        FrameType::PenUp,
        FrameType::PenHover,
        FrameType::Button,
        FrameType::Heartbeat,
        FrameType::Config,
        FrameType::HostHello,
    ];
    for (i, t) in all.iter().enumerate() {
        assert_eq!(t.code(), i as u8 + 1);
        assert_eq!(FrameType::from_u8(i as u8 + 1), Some(*t));
    }
    assert_eq!(FrameType::from_u8(0), None);
    assert_eq!(FrameType::from_u8(10), None);
    assert_eq!(MappingMode::Absolute.code(), 0);
    assert_eq!(MappingMode::Relative.code(), 1);
    assert_eq!(PressureCurve::Linear.code(), 0);
    assert_eq!(PressureCurve::Soft.code(), 1);
    assert_eq!(PressureCurve::Firm.code(), 2);
}

#[test]
fn get_string_reads_and_advances() {
    let data = [0u8, 3, b'a', b'b', b'c', 9, 9];
    let mut cursor: &[u8] = &data;
    let s = get_string(&mut cursor).unwrap();
    assert_eq!(s, "abc");
    assert_eq!(cursor, &[9, 9][..]);

    let short = [0u8, 5, b'a'];
    let mut cursor: &[u8] = &short;
    match get_string(&mut cursor) {
        Err(ProtocolError::PayloadTooShort { expected, actual }) => {
            assert_eq!(expected, 5);
            assert_eq!(actual, 1);
        }
        other => panic!("unexpected {:?}", other),
    }
}

#[test]
fn need_bytes_checks_without_moving() {
    let data = [1u8, 2, 3];
    let mut cursor: &[u8] = &data;
    assert!(need_bytes(&mut cursor, 3).is_ok());
    assert!(matches!(
        need_bytes(&mut cursor, 4),
        Err(ProtocolError::PayloadTooShort { expected: 4, actual: 3 })
    ));
    assert_eq!(cursor.len(), 3);
}

#[test]
fn get_string_error_cursor_positions() {
    let one = [7u8];
    let mut cursor: &[u8] = &one;
    assert!(get_string(&mut cursor).is_err());
    assert_eq!(cursor, &[7][..]);

    let bad = [0u8, 2, 0xff, 0xfe, 1];
    let mut cursor: &[u8] = &bad;
    assert!(matches!(get_string(&mut cursor), Err(ProtocolError::InvalidUtf8)));
    assert_eq!(cursor, &[0xff, 0xfe, 1][..]);

    let short = [0u8, 9, b'x'];
    let mut cursor: &[u8] = &short;
    assert!(get_string(&mut cursor).is_err());
    assert_eq!(cursor, &[b'x'][..]);
}
