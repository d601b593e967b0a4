use graphpad_core::protocol::{Config, Frame, FrameType, Heartbeat, MappingMode, PenEvent, PressureCurve, ProtocolError};
use graphpad_core::session::{
    client_hello_frame, complete_frame_len, drain_frames, frame_type_name, host_hello_frame, PenSession,
    SessionAction,
};
use graphpad_core::{decode_frame, encode_frame};

fn pen(sequence: u32) -> PenEvent {
    PenEvent {
        timestamp_us: sequence as u64 * 1000,
        x_norm: 0.5f32.to_bits(),
        y_norm: 0.5f32.to_bits(),
        pressure: 0.3f32.to_bits(),
        tilt_x: 0,
        tilt_y: 0,
        buttons: 0,
        sequence,
    }
}

#[test]
fn new_session_starts_clean() {
    let session = PenSession::new();
    let stats = session.stats();
    assert_eq!(stats.frames_received, 0);
    assert_eq!(stats.pen_moves, 0);
    assert_eq!(stats.last_sequence, 0);
    assert_eq!(stats.dropped_sequences, 0);
}

#[test]
fn contact_follows_down_and_up() {
    let mut s = PenSession::new();
    assert_eq!(
        s.handle_frame(Frame::PenMove(pen(1))),
        SessionAction::ApplyPen { event: pen(1), in_contact: false, hovering: false }
    );
    assert_eq!(
        s.handle_frame(Frame::PenDown(pen(2))),
        SessionAction::ApplyPen { event: pen(2), in_contact: true, hovering: false }
    );
    assert_eq!(
        s.handle_frame(Frame::PenMove(pen(3))),
        SessionAction::ApplyPen { event: pen(3), in_contact: true, hovering: false }
    );
    assert_eq!(
        s.handle_frame(Frame::PenHover(pen(4))),
        SessionAction::ApplyPen { event: pen(4), in_contact: false, hovering: true }
    );
    assert_eq!(
        s.handle_frame(Frame::PenUp(pen(5))),
        SessionAction::ApplyPen { event: pen(5), in_contact: false, hovering: false }
    );
    assert_eq!(
        s.handle_frame(Frame::PenMove(pen(6))),
        SessionAction::ApplyPen { event: pen(6), in_contact: false, hovering: false }
    );
    let stats = s.stats();
    assert_eq!(stats.frames_received, 6);
    assert_eq!(stats.pen_moves, 3);
    assert_eq!(stats.dropped_sequences, 0);
    assert_eq!(stats.last_sequence, 6);
}

#[test]
fn disconnect_lifts_the_pen_and_asks_for_reset() {
    let mut s = PenSession::new();
    s.handle_frame(Frame::PenDown(pen(1)));
    assert_eq!(s.disconnect(), SessionAction::Reset);
    assert_eq!(
        s.handle_frame(Frame::PenMove(pen(2))),
        SessionAction::ApplyPen { event: pen(2), in_contact: false, hovering: false }
    );
    assert_eq!(s.stats().frames_received, 2);
}

#[test]
fn gaps_in_sequence_numbers_count_as_dropped() {
    let mut s = PenSession::new();
    s.handle_frame(Frame::PenDown(pen(10)));
    assert_eq!(s.stats().dropped_sequences, 0);
    s.handle_frame(Frame::PenMove(pen(11)));
    assert_eq!(s.stats().dropped_sequences, 0);
    s.handle_frame(Frame::PenMove(pen(15)));
    assert_eq!(s.stats().dropped_sequences, 3);
    s.handle_frame(Frame::PenMove(pen(14)));
    assert_eq!(s.stats().dropped_sequences, 3);
    assert_eq!(s.stats().last_sequence, 14);
    s.handle_frame(Frame::PenUp(pen(20)));
    assert_eq!(s.stats().dropped_sequences, 8);
}

#[test]
fn first_pen_frame_never_counts_drops() {
    let mut s = PenSession::new();
    s.handle_frame(Frame::PenMove(pen(1000)));
    assert_eq!(s.stats().dropped_sequences, 0);
    assert_eq!(s.stats().last_sequence, 1000);
}

#[test]
fn config_asks_for_mapping_update_and_others_for_nothing() {
    let mut s = PenSession::new();
    let config = Config {
        mapping_mode: MappingMode::Absolute,
        pressure_curve: PressureCurve::Firm,
        target_monitor: 1,
        area_left: 0,
        area_top: 0,
        area_right: 1.0f32.to_bits(),
        area_bottom: 1.0f32.to_bits(),
    };
    assert_eq!(s.handle_frame(Frame::Config(config)), SessionAction::UpdateMapping(config));
    assert_eq!(s.handle_frame(Frame::Heartbeat(Heartbeat { timestamp_us: 5 })), SessionAction::Ignore);
    assert_eq!(s.handle_frame(client_hello_frame("pad", 0, 0)), SessionAction::Ignore);
    assert_eq!(s.stats().frames_received, 3);
    assert_eq!(s.stats().pen_moves, 0);
}

#[test]
fn can_handle_ordinary_frames() {
    let s = PenSession::new();
    assert!(s.can_handle(&Frame::PenMove(pen(1))));
    assert!(s.can_handle(&Frame::Heartbeat(Heartbeat { timestamp_us: 0 })));
}

#[test]
fn frame_type_names() {
    assert_eq!(frame_type_name(FrameType::Hello), "HELLO");
    assert_eq!(frame_type_name(FrameType::HostHello), "HOST_HELLO");
    assert_eq!(frame_type_name(FrameType::PenDown), "PEN_DOWN");
    assert_eq!(frame_type_name(FrameType::PenMove), "PEN_MOVE");
    assert_eq!(frame_type_name(FrameType::PenUp), "PEN_UP");
    assert_eq!(frame_type_name(FrameType::PenHover), "PEN_HOVER");
    assert_eq!(frame_type_name(FrameType::Button), "BUTTON");
    assert_eq!(frame_type_name(FrameType::Heartbeat), "HEARTBEAT");
    assert_eq!(frame_type_name(FrameType::Config), "CONFIG");
}

#[test]
fn client_hello_announces_unit_pressure() {
    match client_hello_frame("iPad Pro", 214.0f32.to_bits(), 273.0f32.to_bits()) {
        Frame::Hello(h) => {
            assert_eq!(h.protocol_version, 1);
            assert_eq!(h.device_name, "iPad Pro");
            assert_eq!(f32::from_bits(h.screen_width_mm), 214.0);
            assert_eq!(f32::from_bits(h.screen_height_mm), 273.0);
            assert_eq!(f32::from_bits(h.max_pressure), 1.0);
        }
        _ => panic!("wrong frame type"),
    }
}

#[test]
fn host_hello_announces_tablet_ranges() {
    let frame = host_hello_frame("GraphPad Host".to_string());
    let decoded = decode_frame(&encode_frame(&frame)).unwrap();
    match decoded {
        Frame::HostHello(h) => {
            assert_eq!(h.protocol_version, 1);
            assert_eq!(h.host_name, "GraphPad Host");
            assert_eq!(h.tablet_width, 32767);
            assert_eq!(h.tablet_height, 32767);
            assert_eq!(h.pressure_max, 4096);
        }
        _ => panic!("wrong frame type"),
    }
}

#[test]
fn complete_frame_len_waits_for_whole_frame() {
    let encoded = encode_frame(&Frame::PenMove(pen(7))).to_vec();
    assert_eq!(complete_frame_len(&encoded[..7]), None);
    assert_eq!(complete_frame_len(&encoded[..40]), None);
    assert_eq!(complete_frame_len(&encoded), Some(41));
    let mut two = encoded.clone();
    two.extend_from_slice(&encoded);
    let n = complete_frame_len(&two).unwrap();
    assert_eq!(n, 41);
    match decode_frame(&two[..n]).unwrap() {
        Frame::PenMove(e) => assert_eq!(e.sequence, 7),
        _ => panic!("wrong frame type"),
    }
    assert_eq!(complete_frame_len(&[0, 0, 0, 0, 0, 0, 0x01, 0x00]), None);
}

#[test]
fn session_keeps_latest_mapping_config() {
    let mut s = PenSession::new();
    assert_eq!(s.mapping_config(), None);
    let first = Config {
        mapping_mode: MappingMode::Absolute,
        pressure_curve: PressureCurve::Soft,
        target_monitor: 0,
        area_left: 0,
        area_top: 0,
        area_right: 1.0f32.to_bits(),
        area_bottom: 1.0f32.to_bits(),
    };
    let second = Config { mapping_mode: MappingMode::Relative, pressure_curve: PressureCurve::Firm, ..first };
    s.handle_frame(Frame::Config(first));
    s.handle_frame(Frame::PenMove(pen(1)));
    assert_eq!(s.mapping_config(), Some(first));
    s.handle_frame(Frame::Config(second));
    s.disconnect();
    assert_eq!(s.mapping_config(), Some(second));
}

#[test]
fn drain_splits_complete_frames_in_order() {
    let mut stream = encode_frame(&Frame::PenDown(pen(1))).to_vec();
    stream.extend_from_slice(&encode_frame(&Frame::Heartbeat(Heartbeat { timestamp_us: 3 })));
    stream.extend_from_slice(&encode_frame(&Frame::PenUp(pen(2))));
    let whole = drain_frames(&stream);
    assert_eq!(whole.consumed, stream.len());
    assert!(whole.error.is_none());
    assert_eq!(whole.frames.len(), 3);
    assert!(matches!(whole.frames[0], Frame::PenDown(e) if e.sequence == 1));
    assert!(matches!(whole.frames[1], Frame::Heartbeat(h) if h.timestamp_us == 3));
    assert!(matches!(whole.frames[2], Frame::PenUp(e) if e.sequence == 2));

    // The same stream cut into two reads gives the same frames.
    let cut = 50;
    let first = drain_frames(&stream[..cut]);
    assert_eq!(first.frames.len(), 1);
    assert_eq!(first.consumed, 41);
    let mut rest = stream[first.consumed..cut].to_vec();
    rest.extend_from_slice(&stream[cut..]);
    let second = drain_frames(&rest);
    assert_eq!(second.frames.len(), 2);
    assert_eq!(first.consumed + second.consumed, stream.len());
}

#[test]
fn drain_stops_at_a_frame_that_fails_to_decode() {
    let mut stream = encode_frame(&Frame::Heartbeat(Heartbeat { timestamp_us: 1 })).to_vec();
    stream.extend_from_slice(&[b'G', b'P', b'A', b'D', 9, 7, 0, 0]);
    stream.extend_from_slice(&encode_frame(&Frame::Heartbeat(Heartbeat { timestamp_us: 2 })));
    let out = drain_frames(&stream);
    assert_eq!(out.frames.len(), 1);
    assert_eq!(out.consumed, 16 + 8);
    assert!(matches!(out.error, Some(ProtocolError::UnsupportedVersion(9))));
}
