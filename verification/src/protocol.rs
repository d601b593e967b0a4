//! GraphPad binary wire protocol v1.
//!
//! Frame layout (big-endian):
//! ```text
//! magic[4]   = b"GPAD"
//! version    = u8  (currently 1)
//! frame_type = u8
//! length     = u16 (payload bytes)
//! payload    = frame-specific
//! ```
//!
//! Fields that travel as IEEE-754 single-precision numbers are held here as
//! their 32-bit patterns (`f32::to_bits`): the codec moves those bits and never
//! does arithmetic on them.
use vstd::prelude::*;
use vstd::slice::slice_subrange;
use vstd::string::StringSliceAdditionalSpecFns;
use vstd::utf8::{encode_utf8_decode_utf8, valid_utf8};
use bytes::BytesMut;
use crate::bufio::{
    advance, bytes_mut_contents, bytes_mut_put_slice, bytes_mut_put_u16, bytes_mut_put_u8,
    bytes_mut_with_capacity, copy_to_array4, get_u16, get_u32, get_u64, get_u8, str_from_utf8,
    vec_put_u16, vec_put_u32, vec_put_u64, vec_put_u8,
};
use crate::endian::{be16, be32, be64};
use format::{
    frame_bytes, frame_type_of_view, header_bytes, lemma_decode_encode_roundtrip, magic_bytes,
    parse_frame, parse_payload, parse_pen_event, parse_string, payload_bytes, pen_event_bytes,
    string_field, too_short,
};

pub mod buttons;
pub mod format;

verus! {

pub const MAGIC: [u8; 4] = [0x47, 0x50, 0x41, 0x44];
pub const PROTOCOL_VERSION: u8 = 1;
pub const DEFAULT_PORT: u16 = 9470;
pub const SERVICE_TYPE: &'static str = "_graphpad._tcp";

/// Maximum tablet axis value (matches common Wacom tablets).
pub const TABLET_AXIS_MAX: i32 = 32767;
/// Pressure range exposed to the OS (4096 levels).
pub const PRESSURE_MAX: i32 = 4096;
/// Tilt axis range (-90° to +90° mapped to this range).
pub const TILT_MAX: i32 = 90;

/// `std::io::Error`, carried by `ProtocolError::Io`.
#[verifier::external_type_specification]
#[verifier::external_body]
pub struct ExIoError(std::io::Error);

#[derive(Debug, Clone, Copy, PartialEq, Eq, Structural)]
pub enum FrameType {
    Hello,
    PenDown,
    PenMove,
    PenUp,
    PenHover,
    Button,
    Heartbeat,
    Config,
    HostHello,
}

/// The frame type that a type byte names on the wire, if any.
pub open spec fn frame_type_from_code(value: u8) -> Option<FrameType> {
    match value {
        1 => Some(FrameType::Hello),
        2 => Some(FrameType::PenDown),
        3 => Some(FrameType::PenMove),
        4 => Some(FrameType::PenUp),
        5 => Some(FrameType::PenHover),
        6 => Some(FrameType::Button),
        7 => Some(FrameType::Heartbeat),
        8 => Some(FrameType::Config),
        9 => Some(FrameType::HostHello),
        _ => None,
    }
}

impl FrameType {
    /// The type byte of this frame type on the wire.
    pub open spec fn spec_code(self) -> u8 {
        match self {
            FrameType::Hello => 1,
            FrameType::PenDown => 2,
            FrameType::PenMove => 3,
            FrameType::PenUp => 4,
            FrameType::PenHover => 5,
            FrameType::Button => 6,
            FrameType::Heartbeat => 7,
            FrameType::Config => 8,
            FrameType::HostHello => 9,
        }
    }

    pub fn from_u8(value: u8) -> (r: Option<Self>)
        ensures
            r == frame_type_from_code(value),
            r is Some <==> 1 <= value <= 9,
            r matches Some(t) ==> t.spec_code() == value,
    {
        match value {
            1 => Some(Self::Hello),
            2 => Some(Self::PenDown),
            3 => Some(Self::PenMove),
            4 => Some(Self::PenUp),
            5 => Some(Self::PenHover),
            6 => Some(Self::Button),
            7 => Some(Self::Heartbeat),
            8 => Some(Self::Config),
            9 => Some(Self::HostHello),
            _ => None,
        }
    }

    /// The type byte of this frame type (the `as u8` of the wire table).
    pub fn code(self) -> (c: u8)
        ensures
            c == self.spec_code(),
    {
        match self {
            FrameType::Hello => 1,
            FrameType::PenDown => 2,
            FrameType::PenMove => 3,
            FrameType::PenUp => 4,
            FrameType::PenHover => 5,
            FrameType::Button => 6,
            FrameType::Heartbeat => 7,
            FrameType::Config => 8,
            FrameType::HostHello => 9,
        }
    }
}

/// Every frame type's byte names it again.
pub proof fn lemma_frame_type_code_roundtrip(t: FrameType)
    ensures
        frame_type_from_code(t.spec_code()) == Some(t),
        1 <= t.spec_code() <= 9,
{
}

/// The frame-type table of the protocol: HELLO 1, PEN_DOWN 2, PEN_MOVE 3,
/// PEN_UP 4, PEN_HOVER 5, BUTTON 6, HEARTBEAT 7, CONFIG 8, HOST_HELLO 9; the
/// bytes `0` and `10..=255` name no frame type; and no two types share a byte.
pub proof fn lemma_frame_type_table(t: FrameType, u: FrameType, v: u8)
    ensures
        FrameType::Hello.spec_code() == 1,
        FrameType::PenDown.spec_code() == 2,
        FrameType::PenMove.spec_code() == 3,
        FrameType::PenUp.spec_code() == 4,
        FrameType::PenHover.spec_code() == 5,
        FrameType::Button.spec_code() == 6,
        FrameType::Heartbeat.spec_code() == 7,
        FrameType::Config.spec_code() == 8,
        FrameType::HostHello.spec_code() == 9,
        (v == 0 || v >= 10) ==> frame_type_from_code(v) is None,
        t.spec_code() == u.spec_code() ==> t == u,
{
}

/// The CONFIG byte values: mapping mode absolute `0`, relative `1`; pressure
/// curve linear `0`, soft `1`, firm `2`; and reading a written byte gives the
/// value back.
pub proof fn lemma_config_codes(m: MappingMode, c: PressureCurve)
    ensures
        MappingMode::Absolute.spec_code() == 0,
        MappingMode::Relative.spec_code() == 1,
        PressureCurve::Linear.spec_code() == 0,
        PressureCurve::Soft.spec_code() == 1,
        PressureCurve::Firm.spec_code() == 2,
        MappingMode::from_code(m.spec_code()) == m,
        PressureCurve::from_code(c.spec_code()) == c,
{
}

#[derive(Debug, Clone, Copy, PartialEq, Eq, Structural)]
pub enum MappingMode {
    Absolute,
    Relative,
}

impl MappingMode {
    /// The byte of this mode on the wire (`0` absolute, `1` relative).
    pub open spec fn spec_code(self) -> u8 {
        match self {
            MappingMode::Absolute => 0,
            MappingMode::Relative => 1,
        }
    }

    /// The mode that a CONFIG byte selects: `0` is absolute, any other byte relative.
    pub open spec fn from_code(value: u8) -> MappingMode {
        if value == 0 { MappingMode::Absolute } else { MappingMode::Relative }
    }

    pub fn code(self) -> (c: u8)
        ensures
            c == self.spec_code(),
    {
        match self {
            MappingMode::Absolute => 0,
            MappingMode::Relative => 1,
        }
    }
}

#[derive(Debug, Clone, Copy, PartialEq, Eq, Structural)]
pub enum PressureCurve {
    Linear,
    Soft,
    Firm,
}

impl PressureCurve {
    /// The byte of this curve on the wire (`0` linear, `1` soft, `2` firm).
    pub open spec fn spec_code(self) -> u8 {
        match self {
            PressureCurve::Linear => 0,
            PressureCurve::Soft => 1,
            PressureCurve::Firm => 2,
        }
    }

    /// The curve that a CONFIG byte selects: `0` linear, `1` soft, any other byte firm.
    pub open spec fn from_code(value: u8) -> PressureCurve {
        if value == 0 {
            PressureCurve::Linear
        } else if value == 1 {
            PressureCurve::Soft
        } else {
            PressureCurve::Firm
        }
    }

    pub fn code(self) -> (c: u8)
        ensures
            c == self.spec_code(),
    {
        match self {
            PressureCurve::Linear => 0,
            PressureCurve::Soft => 1,
            PressureCurve::Firm => 2,
        }
    }
}

/// HELLO, client to host. The three `f32` fields hold IEEE-754 bit patterns.
#[derive(Debug, Clone)]
pub struct Hello {
    pub protocol_version: u16,
    pub device_name: String,
    pub screen_width_mm: u32,
    pub screen_height_mm: u32,
    pub max_pressure: u32,
}

/// A HELLO as a value: the device name as its characters.
pub struct HelloView {
    pub protocol_version: u16,
    pub device_name: Seq<char>,
    pub screen_width_mm: u32,
    pub screen_height_mm: u32,
    pub max_pressure: u32,
}

impl View for Hello {
    type V = HelloView;

    open spec fn view(&self) -> HelloView {
        HelloView {
            protocol_version: self.protocol_version,
            device_name: self.device_name@,
            screen_width_mm: self.screen_width_mm,
            screen_height_mm: self.screen_height_mm,
            max_pressure: self.max_pressure,
        }
    }
}

/// HOST_HELLO, host to client.
#[derive(Debug, Clone)]
pub struct HostHello {
    pub protocol_version: u16,
    pub host_name: String,
    pub tablet_width: u32,
    pub tablet_height: u32,
    pub pressure_max: u32,
}

/// A HOST_HELLO as a value: the host name as its characters.
pub struct HostHelloView {
    pub protocol_version: u16,
    pub host_name: Seq<char>,
    pub tablet_width: u32,
    pub tablet_height: u32,
    pub pressure_max: u32,
}

impl View for HostHello {
    type V = HostHelloView;

    open spec fn view(&self) -> HostHelloView {
        HostHelloView {
            protocol_version: self.protocol_version,
            host_name: self.host_name@,
            tablet_width: self.tablet_width,
            tablet_height: self.tablet_height,
            pressure_max: self.pressure_max,
        }
    }
}

/// A pen sample. `x_norm`, `y_norm`, `pressure`, `tilt_x` and `tilt_y` hold
/// IEEE-754 bit patterns of the normalized `f32` values.
#[derive(Debug, Clone, Copy, PartialEq, Eq, Structural)]
pub struct PenEvent {
    pub timestamp_us: u64,
    pub x_norm: u32,
    pub y_norm: u32,
    pub pressure: u32,
    pub tilt_x: u32,
    pub tilt_y: u32,
    pub buttons: u8,
    pub sequence: u32,
}

#[derive(Debug, Clone, Copy, PartialEq, Eq, Structural)]
pub struct ButtonEvent {
    pub timestamp_us: u64,
    pub buttons: u8,
}

#[derive(Debug, Clone, Copy, PartialEq, Eq, Structural)]
pub struct Heartbeat {
    pub timestamp_us: u64,
}

/// CONFIG, client to host. The four `area_*` fields hold IEEE-754 bit patterns.
#[derive(Debug, Clone, Copy, PartialEq, Eq, Structural)]
pub struct Config {
    pub mapping_mode: MappingMode,
    pub pressure_curve: PressureCurve,
    pub target_monitor: u32,
    pub area_left: u32,
    pub area_top: u32,
    pub area_right: u32,
    pub area_bottom: u32,
}

#[derive(Debug, Clone)]
pub enum Frame {
    Hello(Hello),
    HostHello(HostHello),
    PenDown(PenEvent),
    PenMove(PenEvent),
    PenUp(PenEvent),
    PenHover(PenEvent),
    Button(ButtonEvent),
    Heartbeat(Heartbeat),
    Config(Config),
}

/// A frame as a value.
pub enum FrameView {
    Hello(HelloView),
    HostHello(HostHelloView),
    PenDown(PenEvent),
    PenMove(PenEvent),
    PenUp(PenEvent),
    PenHover(PenEvent),
    Button(ButtonEvent),
    Heartbeat(Heartbeat),
    Config(Config),
}

impl View for Frame {
    type V = FrameView;

    open spec fn view(&self) -> FrameView {
        match self {
            Frame::Hello(h) => FrameView::Hello(h@),
            Frame::HostHello(h) => FrameView::HostHello(h@),
            Frame::PenDown(e) => FrameView::PenDown(*e),
            Frame::PenMove(e) => FrameView::PenMove(*e),
            Frame::PenUp(e) => FrameView::PenUp(*e),
            Frame::PenHover(e) => FrameView::PenHover(*e),
            Frame::Button(b) => FrameView::Button(*b),
            Frame::Heartbeat(h) => FrameView::Heartbeat(*h),
            Frame::Config(c) => FrameView::Config(*c),
        }
    }
}

#[derive(Debug)]
pub enum ProtocolError {
    InvalidMagic,
    UnsupportedVersion(u8),
    UnknownFrameType(u8),
    PayloadTooShort { expected: usize, actual: usize },
    InvalidUtf8,
    Io(std::io::Error),
}

/// A decode result as a value: the frame by its view, the error as it is.
pub open spec fn decode_result_view(r: Result<Frame, ProtocolError>) -> Result<FrameView, ProtocolError> {
    match r {
        Ok(f) => Ok(f@),
        Err(e) => Err(e),
    }
}

/// Encodes `frame` into a new buffer: the 8-byte header, then the payload.
/// The payload length is written as a `u16`, truncated as the sender does;
/// whenever it fits, decoding the result gives `frame` back.
pub fn encode_frame(frame: &Frame) -> (buf: BytesMut)
    requires
        payload_bytes(frame@).len() + 8 <= isize::MAX,
    ensures
        bytes_mut_contents(buf) == frame_bytes(frame@),
        payload_bytes(frame@).len() <= 0xffff ==> parse_frame(bytes_mut_contents(buf))
            == Ok::<FrameView, ProtocolError>(frame@),
{
    let payload = encode_payload(frame);
    let frame_type = frame_type_of(frame);

    let mut buf = bytes_mut_with_capacity(8 + payload.len());
    bytes_mut_put_slice(&mut buf, &MAGIC);
    bytes_mut_put_u8(&mut buf, PROTOCOL_VERSION);
    bytes_mut_put_u8(&mut buf, frame_type.code());
    bytes_mut_put_u16(&mut buf, payload.len() as u16);
    bytes_mut_put_slice(&mut buf, payload.as_slice());
    proof {
        assert(MAGIC@ =~= magic_bytes());
        assert(bytes_mut_contents(buf) =~= frame_bytes(frame@));
        if payload_bytes(frame@).len() <= 0xffff {
            lemma_decode_encode_roundtrip(frame@, Seq::<u8>::empty());
            assert(frame_bytes(frame@) + Seq::<u8>::empty() =~= frame_bytes(frame@));
        }
    }
    buf
}

/// Decodes one frame from the front of `buf`; bytes after the frame are ignored.
pub fn decode_frame(buf: &[u8]) -> (res: Result<Frame, ProtocolError>)
    ensures
        decode_result_view(res) == parse_frame(buf@),
{
    if buf.len() < 8 {
        return Err(ProtocolError::PayloadTooShort { expected: 8, actual: buf.len() });
    }
    let mut cursor = buf;
    let mut magic = [0u8; 4];
    copy_to_array4(&mut cursor, &mut magic);
    if magic[0] != MAGIC[0] || magic[1] != MAGIC[1] || magic[2] != MAGIC[2] || magic[3] != MAGIC[3] {
        proof {
            assert(buf@.take(4) != magic_bytes()) by {
                if buf@.take(4) == magic_bytes() {
                    assert(magic@[0] == buf@.take(4)[0]);
                }
            }
        }
        return Err(ProtocolError::InvalidMagic);
    }
    assert(buf@.take(4) =~= magic_bytes());
    let version = get_u8(&mut cursor);
    if version != PROTOCOL_VERSION {
        return Err(ProtocolError::UnsupportedVersion(version));
    }
    let type_byte = get_u8(&mut cursor);
    let frame_type = match FrameType::from_u8(type_byte) {
        Some(t) => t,
        None => return Err(ProtocolError::UnknownFrameType(buf[5])),
    };
    assert(cursor@ =~= buf@.skip(6));
    let length = get_u16(&mut cursor) as usize;
    assert(cursor@ =~= buf@.skip(8));
    if cursor.len() < length {
        return Err(ProtocolError::PayloadTooShort { expected: length, actual: cursor.len() });
    }
    let payload = slice_subrange(cursor, 0, length);
    assert(payload@ =~= buf@.skip(8).take(length as int));
    decode_payload(frame_type, payload)
}

/// The frame type of a frame.
pub fn frame_type_of(frame: &Frame) -> (t: FrameType)
    ensures
        t == frame_type_of_view(frame@),
{
    match frame {
        Frame::Hello(_) => FrameType::Hello,
        Frame::HostHello(_) => FrameType::HostHello,
        Frame::PenDown(_) => FrameType::PenDown,
        Frame::PenMove(_) => FrameType::PenMove,
        Frame::PenUp(_) => FrameType::PenUp,
        Frame::PenHover(_) => FrameType::PenHover,
        Frame::Button(_) => FrameType::Button,
        Frame::Heartbeat(_) => FrameType::Heartbeat,
        Frame::Config(_) => FrameType::Config,
    }
}

/// The payload bytes of `frame`.
pub fn encode_payload(frame: &Frame) -> (buf: Vec<u8>)
    requires
        payload_bytes(frame@).len() <= isize::MAX,
    ensures
        buf@ == payload_bytes(frame@),
{
    let mut buf: Vec<u8> = Vec::new();
    match frame {
        Frame::Hello(h) => {
            vec_put_u16(&mut buf, h.protocol_version);
            put_string(&mut buf, h.device_name.as_str());
            vec_put_u32(&mut buf, h.screen_width_mm);
            vec_put_u32(&mut buf, h.screen_height_mm);
            vec_put_u32(&mut buf, h.max_pressure);
        },
        Frame::HostHello(h) => {
            vec_put_u16(&mut buf, h.protocol_version);
            put_string(&mut buf, h.host_name.as_str());
            vec_put_u32(&mut buf, h.tablet_width);
            vec_put_u32(&mut buf, h.tablet_height);
            vec_put_u32(&mut buf, h.pressure_max);
        },
        Frame::PenDown(e) => {
            encode_pen_event(&mut buf, *e);
        },
        Frame::PenMove(e) => {
            encode_pen_event(&mut buf, *e);
        },
        Frame::PenUp(e) => {
            encode_pen_event(&mut buf, *e);
        },
        Frame::PenHover(e) => {
            encode_pen_event(&mut buf, *e);
        },
        Frame::Button(b) => {
            vec_put_u64(&mut buf, b.timestamp_us);
            vec_put_u8(&mut buf, b.buttons);
        },
        Frame::Heartbeat(h) => {
            vec_put_u64(&mut buf, h.timestamp_us);
        },
        Frame::Config(c) => {
            vec_put_u8(&mut buf, c.mapping_mode.code());
            vec_put_u8(&mut buf, c.pressure_curve.code());
            vec_put_u32(&mut buf, c.target_monitor);
            vec_put_u32(&mut buf, c.area_left);
            vec_put_u32(&mut buf, c.area_top);
            vec_put_u32(&mut buf, c.area_right);
            vec_put_u32(&mut buf, c.area_bottom);
        },
    }
    assert(buf@ =~= payload_bytes(frame@));
    buf
}

/// Appends the 33 bytes of a pen event.
pub fn encode_pen_event(buf: &mut Vec<u8>, event: PenEvent)
    requires
        old(buf)@.len() + 33 <= isize::MAX,
    ensures
        final(buf)@ == old(buf)@ + pen_event_bytes(event),
{
    vec_put_u64(buf, event.timestamp_us);
    vec_put_u32(buf, event.x_norm);
    vec_put_u32(buf, event.y_norm);
    vec_put_u32(buf, event.pressure);
    vec_put_u32(buf, event.tilt_x);
    vec_put_u32(buf, event.tilt_y);
    vec_put_u8(buf, event.buttons);
    vec_put_u32(buf, event.sequence);
    assert(buf@ =~= old(buf)@ + pen_event_bytes(event));
}

/// Appends a string: its UTF-8 byte count as a `u16` (truncated to 16 bits),
/// then its bytes.
pub fn put_string(buf: &mut Vec<u8>, value: &str)
    requires
        old(buf)@.len() + string_field(value@).len() <= isize::MAX,
    ensures
        final(buf)@ == old(buf)@ + string_field(value@),
{
    let bytes = value.as_bytes();
    vec_put_u16(buf, bytes.len() as u16);
    buf.extend_from_slice(bytes);
    assert(buf@ =~= old(buf)@ + string_field(value@));
}

/// Reads a length-prefixed UTF-8 string from the front of `cursor`, which then
/// points after it.
pub fn get_string(cursor: &mut &[u8]) -> (res: Result<String, ProtocolError>)
    ensures
        res matches Ok(v) ==> parse_string(old(cursor)@) == Ok::<(Seq<char>, Seq<u8>), ProtocolError>(
            (v@, final(cursor)@),
        ),
        res matches Err(e) ==> parse_string(old(cursor)@) == Err::<(Seq<char>, Seq<u8>), ProtocolError>(e),
        old(cursor)@.len() < 2 ==> res is Err && final(cursor)@ == old(cursor)@,
        old(cursor)@.len() >= 2 && res is Err ==> final(cursor)@ == old(cursor)@.skip(2),
{
    need_bytes(cursor, 2)?;
    let len = get_u16(cursor) as usize;
    need_bytes(cursor, len)?;
    let bytes = slice_subrange(*cursor, 0, len);
    let value = match str_from_utf8(bytes) {
        Some(s) => {
            proof {
                encode_utf8_decode_utf8(s@);
            }
            s.to_owned()
        },
        None => return Err(ProtocolError::InvalidUtf8),
    };
    advance(cursor, len);
    Ok(value)
}

/// Succeeds exactly when at least `count` bytes remain; the cursor is left as it was.
pub fn need_bytes(cursor: &mut &[u8], count: usize) -> (res: Result<(), ProtocolError>)
    ensures
        final(cursor)@ == old(cursor)@,
        res is Ok <==> old(cursor)@.len() >= count,
        res matches Err(e) ==> e == too_short(count as int, old(cursor)@.len() as int),
{
    if cursor.len() < count {
        return Err(ProtocolError::PayloadTooShort { expected: count, actual: cursor.len() });
    }
    Ok(())
}

/// Reads the 33 bytes of a pen event from the front of `cursor`.
pub fn decode_pen_event(cursor: &mut &[u8]) -> (res: Result<PenEvent, ProtocolError>)
    ensures
        res == parse_pen_event(old(cursor)@),
        res is Ok ==> final(cursor)@ == old(cursor)@.skip(33),
        res is Err ==> final(cursor)@ == old(cursor)@,
{
    need_bytes(cursor, 33)?;
    let timestamp_us = get_u64(cursor);
    let x_norm = get_u32(cursor);
    let y_norm = get_u32(cursor);
    let pressure = get_u32(cursor);
    let tilt_x = get_u32(cursor);
    let tilt_y = get_u32(cursor);
    let buttons = get_u8(cursor);
    let sequence = get_u32(cursor);
    assert(cursor@ =~= old(cursor)@.skip(33));
    Ok(PenEvent { timestamp_us, x_norm, y_norm, pressure, tilt_x, tilt_y, buttons, sequence })
}

/// Reads the payload of a frame of type `frame_type`.
pub fn decode_payload(frame_type: FrameType, payload: &[u8]) -> (res: Result<Frame, ProtocolError>)
    ensures
        decode_result_view(res) == parse_payload(frame_type, payload@),
{
    let mut cursor = payload;
    match frame_type {
        FrameType::Hello => {
            need_bytes(&mut cursor, 2)?;
            let protocol_version = get_u16(&mut cursor);
            let device_name = get_string(&mut cursor)?;
            need_bytes(&mut cursor, 12)?;
            let screen_width_mm = get_u32(&mut cursor);
            let screen_height_mm = get_u32(&mut cursor);
            let max_pressure = get_u32(&mut cursor);
            Ok(
                Frame::Hello(
                    Hello {
                        protocol_version,
                        device_name,
                        screen_width_mm,
                        screen_height_mm,
                        max_pressure,
                    },
                ),
            )
        },
        FrameType::HostHello => {
            need_bytes(&mut cursor, 2)?;
            let protocol_version = get_u16(&mut cursor);
            let host_name = get_string(&mut cursor)?;
            need_bytes(&mut cursor, 12)?;
            let tablet_width = get_u32(&mut cursor);
            let tablet_height = get_u32(&mut cursor);
            let pressure_max = get_u32(&mut cursor);
            Ok(
                Frame::HostHello(
                    HostHello { protocol_version, host_name, tablet_width, tablet_height, pressure_max },
                ),
            )
        },
        FrameType::PenDown => {
            let event = decode_pen_event(&mut cursor)?;
            Ok(Frame::PenDown(event))
        },
        FrameType::PenMove => {
            let event = decode_pen_event(&mut cursor)?;
            Ok(Frame::PenMove(event))
        },
        FrameType::PenUp => {
            let event = decode_pen_event(&mut cursor)?;
            Ok(Frame::PenUp(event))
        },
        FrameType::PenHover => {
            let event = decode_pen_event(&mut cursor)?;
            Ok(Frame::PenHover(event))
        },
        FrameType::Button => {
            need_bytes(&mut cursor, 9)?;
            let timestamp_us = get_u64(&mut cursor);
            let buttons = get_u8(&mut cursor);
            Ok(Frame::Button(ButtonEvent { timestamp_us, buttons }))
        },
        FrameType::Heartbeat => {
            need_bytes(&mut cursor, 8)?;
            let timestamp_us = get_u64(&mut cursor);
            Ok(Frame::Heartbeat(Heartbeat { timestamp_us }))
        },
        FrameType::Config => {
            need_bytes(&mut cursor, 22)?;
            let mapping_mode = match get_u8(&mut cursor) {
                0 => MappingMode::Absolute,
                _ => MappingMode::Relative,
            };
            let pressure_curve = match get_u8(&mut cursor) {
                0 => PressureCurve::Linear,
                1 => PressureCurve::Soft,
                _ => PressureCurve::Firm,
            };
            let target_monitor = get_u32(&mut cursor);
            let area_left = get_u32(&mut cursor);
            let area_top = get_u32(&mut cursor);
            let area_right = get_u32(&mut cursor);
            let area_bottom = get_u32(&mut cursor);
            Ok(
                Frame::Config(
                    Config {
                        mapping_mode,
                        pressure_curve,
                        target_monitor,
                        area_left,
                        area_top,
                        area_right,
                        area_bottom,
                    },
                ),
            )
        },
    }
}

} // verus!
