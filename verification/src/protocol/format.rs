//! The wire format as mathematics: the bytes that encode a frame, what a byte
//! sequence decodes to (or which error it is refused with), and the law that
//! decoding gives back what encoding wrote.
use vstd::prelude::*;
use vstd::utf8::{decode_utf8, encode_utf8, encode_utf8_decode_utf8, encode_utf8_valid_utf8, valid_utf8};
use crate::endian::{
    be16, be32, be64, from_be16, from_be32, from_be64, lemma_be16_roundtrip, lemma_be32_roundtrip,
    lemma_be64_roundtrip,
};
use crate::protocol::{
    frame_type_from_code, lemma_frame_type_code_roundtrip, ButtonEvent, Config, FrameType,
    FrameView, Heartbeat, HelloView, HostHelloView, MappingMode, PenEvent, PressureCurve,
    ProtocolError, PROTOCOL_VERSION,
};

verus! {

/// The four magic bytes `b"GPAD"` that open every frame.
pub open spec fn magic_bytes() -> Seq<u8> {
    seq![0x47u8, 0x50u8, 0x41u8, 0x44u8]
}

/// Size of the frame header: magic, version, type and payload length.
pub open spec fn header_len() -> int {
    8
}

/// The error for a read that needed `expected` bytes where only `actual` remained.
pub open spec fn too_short(expected: int, actual: int) -> ProtocolError {
    ProtocolError::PayloadTooShort { expected: expected as usize, actual: actual as usize }
}

// ---------------------------------------------------------------- encoding

/// A length-prefixed UTF-8 string: its byte count as a `u16` (truncated to 16
/// bits, as the sender does), then its bytes.
pub open spec fn string_field(s: Seq<char>) -> Seq<u8> {
    be16(encode_utf8(s).len() as u16) + encode_utf8(s)
}

/// The 33 payload bytes of a pen event.
pub open spec fn pen_event_bytes(e: PenEvent) -> Seq<u8> {
    be64(e.timestamp_us) + be32(e.x_norm) + be32(e.y_norm) + be32(e.pressure) + be32(e.tilt_x)
        + be32(e.tilt_y) + seq![e.buttons] + be32(e.sequence)
}

/// The payload bytes of a frame.
pub open spec fn payload_bytes(f: FrameView) -> Seq<u8> {
    match f {
        FrameView::Hello(h) => be16(h.protocol_version) + string_field(h.device_name) + be32(
            h.screen_width_mm,
        ) + be32(h.screen_height_mm) + be32(h.max_pressure),
        FrameView::HostHello(h) => be16(h.protocol_version) + string_field(h.host_name) + be32(
            h.tablet_width,
        ) + be32(h.tablet_height) + be32(h.pressure_max),
        FrameView::PenDown(e) => pen_event_bytes(e),
        FrameView::PenMove(e) => pen_event_bytes(e),
        FrameView::PenUp(e) => pen_event_bytes(e),
        FrameView::PenHover(e) => pen_event_bytes(e),
        FrameView::Button(b) => be64(b.timestamp_us) + seq![b.buttons],
        FrameView::Heartbeat(h) => be64(h.timestamp_us),
        FrameView::Config(c) => seq![c.mapping_mode.spec_code(), c.pressure_curve.spec_code()]
            + be32(c.target_monitor) + be32(c.area_left) + be32(c.area_top) + be32(c.area_right)
            + be32(c.area_bottom),
    }
}

/// The frame type of a frame.
pub open spec fn frame_type_of_view(f: FrameView) -> FrameType {
    match f {
        FrameView::Hello(_) => FrameType::Hello,
        FrameView::HostHello(_) => FrameType::HostHello,
        FrameView::PenDown(_) => FrameType::PenDown,
        FrameView::PenMove(_) => FrameType::PenMove,
        FrameView::PenUp(_) => FrameType::PenUp,
        FrameView::PenHover(_) => FrameType::PenHover,
        FrameView::Button(_) => FrameType::Button,
        FrameView::Heartbeat(_) => FrameType::Heartbeat,
        FrameView::Config(_) => FrameType::Config,
    }
}

/// The header bytes for a payload of `payload_len` bytes and frame type `t`;
/// the length is truncated to 16 bits, as the sender does.
pub open spec fn header_bytes(t: FrameType, payload_len: nat) -> Seq<u8> {
    magic_bytes() + seq![PROTOCOL_VERSION, t.spec_code()] + be16(payload_len as u16)
}

/// All bytes of an encoded frame: header, then payload.
pub open spec fn frame_bytes(f: FrameView) -> Seq<u8> {
    header_bytes(frame_type_of_view(f), payload_bytes(f).len()) + payload_bytes(f)
}

// ---------------------------------------------------------------- decoding

/// A length-prefixed UTF-8 string read from the front of `s`, with the bytes
/// after it.
pub open spec fn parse_string(s: Seq<u8>) -> Result<(Seq<char>, Seq<u8>), ProtocolError> {
    if s.len() < 2 {
        Err(too_short(2, s.len() as int))
    } else {
        let len = from_be16(s) as int;
        let r = s.skip(2);
        if r.len() < len {
            Err(too_short(len, r.len() as int))
        } else if !valid_utf8(r.take(len)) {
            Err(ProtocolError::InvalidUtf8)
        } else {
            Ok((decode_utf8(r.take(len)), r.skip(len)))
        }
    }
}

/// A pen event read from the front of `s`: 33 bytes, fields in wire order.
pub open spec fn parse_pen_event(s: Seq<u8>) -> Result<PenEvent, ProtocolError> {
    if s.len() < 33 {
        Err(too_short(33, s.len() as int))
    } else {
        let r1 = s.skip(8);
        let r2 = r1.skip(4);
        let r3 = r2.skip(4);
        let r4 = r3.skip(4);
        let r5 = r4.skip(4);
        let r6 = r5.skip(4);
        let r7 = r6.skip(1);
        Ok(
            PenEvent {
                timestamp_us: from_be64(s),
                x_norm: from_be32(r1),
                y_norm: from_be32(r2),
                pressure: from_be32(r3),
                tilt_x: from_be32(r4),
                tilt_y: from_be32(r5),
                buttons: r6[0],
                sequence: from_be32(r7),
            },
        )
    }
}

/// The HELLO payload read from `p`.
pub open spec fn parse_hello(p: Seq<u8>) -> Result<FrameView, ProtocolError> {
    if p.len() < 2 {
        Err(too_short(2, p.len() as int))
    } else {
        match parse_string(p.skip(2)) {
            Err(e) => Err(e),
            Ok((name, r)) => if r.len() < 12 {
                Err(too_short(12, r.len() as int))
            } else {
                Ok(
                    FrameView::Hello(
                        HelloView {
                            protocol_version: from_be16(p),
                            device_name: name,
                            screen_width_mm: from_be32(r),
                            screen_height_mm: from_be32(r.skip(4)),
                            max_pressure: from_be32(r.skip(4).skip(4)),
                        },
                    ),
                )
            },
        }
    }
}

/// The HOST_HELLO payload read from `p`.
pub open spec fn parse_host_hello(p: Seq<u8>) -> Result<FrameView, ProtocolError> {
    if p.len() < 2 {
        Err(too_short(2, p.len() as int))
    } else {
        match parse_string(p.skip(2)) {
            Err(e) => Err(e),
            Ok((name, r)) => if r.len() < 12 {
                Err(too_short(12, r.len() as int))
            } else {
                Ok(
                    FrameView::HostHello(
                        HostHelloView {
                            protocol_version: from_be16(p),
                            host_name: name,
                            tablet_width: from_be32(r),
                            tablet_height: from_be32(r.skip(4)),
                            pressure_max: from_be32(r.skip(4).skip(4)),
                        },
                    ),
                )
            },
        }
    }
}

/// The CONFIG payload read from `p`: 22 bytes.
pub open spec fn parse_config(p: Seq<u8>) -> Result<FrameView, ProtocolError> {
    if p.len() < 22 {
        Err(too_short(22, p.len() as int))
    } else {
        let r1 = p.skip(1).skip(1);
        let r2 = r1.skip(4);
        let r3 = r2.skip(4);
        let r4 = r3.skip(4);
        let r5 = r4.skip(4);
        Ok(
            FrameView::Config(
                Config {
                    mapping_mode: MappingMode::from_code(p[0]),
                    pressure_curve: PressureCurve::from_code(p[1]),
                    target_monitor: from_be32(r1),
                    area_left: from_be32(r2),
                    area_top: from_be32(r3),
                    area_right: from_be32(r4),
                    area_bottom: from_be32(r5),
                },
            ),
        )
    }
}

/// The payload `p` of a frame of type `t`, read as that frame; bytes after the
/// fields that the type reads are ignored.
pub open spec fn parse_payload(t: FrameType, p: Seq<u8>) -> Result<FrameView, ProtocolError> {
    match t {
        FrameType::Hello => parse_hello(p),
        FrameType::HostHello => parse_host_hello(p),
        FrameType::PenDown => match parse_pen_event(p) {
            Ok(e) => Ok(FrameView::PenDown(e)),
            Err(err) => Err(err),
        },
        FrameType::PenMove => match parse_pen_event(p) {
            Ok(e) => Ok(FrameView::PenMove(e)),
            Err(err) => Err(err),
        },
        FrameType::PenUp => match parse_pen_event(p) {
            Ok(e) => Ok(FrameView::PenUp(e)),
            Err(err) => Err(err),
        },
        FrameType::PenHover => match parse_pen_event(p) {
            Ok(e) => Ok(FrameView::PenHover(e)),
            Err(err) => Err(err),
        },
        FrameType::Button => if p.len() < 9 {
            Err(too_short(9, p.len() as int))
        } else {
            Ok(FrameView::Button(ButtonEvent { timestamp_us: from_be64(p), buttons: p.skip(8)[0] }))
        },
        FrameType::Heartbeat => if p.len() < 8 {
            Err(too_short(8, p.len() as int))
        } else {
            Ok(FrameView::Heartbeat(Heartbeat { timestamp_us: from_be64(p) }))
        },
        FrameType::Config => parse_config(p),
    }
}

/// What the bytes `b` decode to: the header is checked in order (length,
/// magic, version, type, payload length), then the payload is read.
pub open spec fn parse_frame(b: Seq<u8>) -> Result<FrameView, ProtocolError> {
    if b.len() < header_len() {
        Err(too_short(header_len(), b.len() as int))
    } else if b.take(4) != magic_bytes() {
        Err(ProtocolError::InvalidMagic)
    } else if b[4] != PROTOCOL_VERSION {
        Err(ProtocolError::UnsupportedVersion(b[4]))
    } else {
        match frame_type_from_code(b[5]) {
            None => Err(ProtocolError::UnknownFrameType(b[5])),
            Some(t) => {
                let len = from_be16(b.skip(6)) as int;
                let rest = b.skip(8);
                if rest.len() < len {
                    Err(too_short(len, rest.len() as int))
                } else {
                    parse_payload(t, rest.take(len))
                }
            },
        }
    }
}

// ---------------------------------------------------------------- laws

/// A string field reads back as the string it was written from, and the bytes
/// after it are left over, when its UTF-8 length fits in the 16-bit prefix.
pub proof fn lemma_string_roundtrip(s: Seq<char>, rest: Seq<u8>)
    requires
        encode_utf8(s).len() <= 0xffff,
    ensures
        parse_string(string_field(s) + rest) == Ok::<(Seq<char>, Seq<u8>), ProtocolError>((s, rest)),
{
    let bytes = encode_utf8(s);
    let n = bytes.len() as u16;
    let b = string_field(s) + rest;
    assert(b =~= be16(n) + (bytes + rest));
    lemma_be16_roundtrip(n, bytes + rest);
    assert(b.skip(2) =~= bytes + rest);
    assert((bytes + rest).take(bytes.len() as int) =~= bytes);
    assert((bytes + rest).skip(bytes.len() as int) =~= rest);
    encode_utf8_valid_utf8(s);
    encode_utf8_decode_utf8(s);
}

/// Appending is associative (a step used to re-nest encodings).
proof fn lemma_cat_assoc(a: Seq<u8>, b: Seq<u8>, c: Seq<u8>)
    ensures
        (a + b) + c == a + (b + c),
{
    assert((a + b) + c =~= a + (b + c));
}

/// Skipping a prefix leaves what followed it.
proof fn lemma_skip_prefix(a: Seq<u8>, b: Seq<u8>)
    ensures
        (a + b).skip(a.len() as int) == b,
        (a + b).take(a.len() as int) == a,
{
    assert((a + b).skip(a.len() as int) =~= b);
    assert((a + b).take(a.len() as int) =~= a);
}

/// A pen event reads back from its 33 bytes, whatever follows them.
pub proof fn lemma_pen_event_roundtrip(e: PenEvent, rest: Seq<u8>)
    ensures
        pen_event_bytes(e).len() == 33,
        parse_pen_event(pen_event_bytes(e) + rest) == Ok::<PenEvent, ProtocolError>(e),
{
    let l0 = be64(e.timestamp_us);
    let l1 = l0 + be32(e.x_norm);
    let l2 = l1 + be32(e.y_norm);
    let l3 = l2 + be32(e.pressure);
    let l4 = l3 + be32(e.tilt_x);
    let l5 = l4 + be32(e.tilt_y);
    let l6 = l5 + seq![e.buttons];
    let t7 = be32(e.sequence) + rest;
    let t6 = seq![e.buttons] + t7;
    let t5 = be32(e.tilt_y) + t6;
    let t4 = be32(e.tilt_x) + t5;
    let t3 = be32(e.pressure) + t4;
    let t2 = be32(e.y_norm) + t3;
    let t1 = be32(e.x_norm) + t2;
    let s = pen_event_bytes(e) + rest;
    lemma_cat_assoc(l6, be32(e.sequence), rest);
    lemma_cat_assoc(l5, seq![e.buttons], t7);
    lemma_cat_assoc(l4, be32(e.tilt_y), t6);
    lemma_cat_assoc(l3, be32(e.tilt_x), t5);
    lemma_cat_assoc(l2, be32(e.pressure), t4);
    lemma_cat_assoc(l1, be32(e.y_norm), t3);
    lemma_cat_assoc(l0, be32(e.x_norm), t2);
    assert(s == l0 + t1);
    lemma_be64_roundtrip(e.timestamp_us, t1);
    lemma_be32_roundtrip(e.x_norm, t2);
    lemma_be32_roundtrip(e.y_norm, t3);
    lemma_be32_roundtrip(e.pressure, t4);
    lemma_be32_roundtrip(e.tilt_x, t5);
    lemma_be32_roundtrip(e.tilt_y, t6);
    lemma_be32_roundtrip(e.sequence, rest);
    lemma_skip_prefix(l0, t1);
    lemma_skip_prefix(be32(e.x_norm), t2);
    lemma_skip_prefix(be32(e.y_norm), t3);
    lemma_skip_prefix(be32(e.pressure), t4);
    lemma_skip_prefix(be32(e.tilt_x), t5);
    lemma_skip_prefix(be32(e.tilt_y), t6);
    lemma_skip_prefix(seq![e.buttons], t7);
}

/// The twelve bytes after a name in a HELLO or HOST_HELLO read back as the
/// three `u32` fields they were written from.
proof fn lemma_three_u32_roundtrip(a: u32, b: u32, c: u32)
    ensures
        ({
            let r = be32(a) + be32(b) + be32(c);
            &&& r.len() == 12
            &&& from_be32(r) == a
            &&& from_be32(r.skip(4)) == b
            &&& from_be32(r.skip(4).skip(4)) == c
        }),
{
    let e = Seq::<u8>::empty();
    lemma_cat_assoc(be32(a), be32(b), be32(c));
    lemma_be32_roundtrip(a, be32(b) + be32(c));
    lemma_skip_prefix(be32(a), be32(b) + be32(c));
    lemma_be32_roundtrip(b, be32(c));
    lemma_skip_prefix(be32(b), be32(c));
    assert(be32(c) + e =~= be32(c));
    lemma_be32_roundtrip(c, e);
}

/// A version, a string and three `u32` fields (the shape of HELLO and
/// HOST_HELLO) read back from their bytes.
proof fn lemma_versioned_named_roundtrip(v: u16, name: Seq<char>, a: u32, b: u32, c: u32)
    requires
        encode_utf8(name).len() <= 0xffff,
    ensures
        ({
            let p = be16(v) + string_field(name) + be32(a) + be32(b) + be32(c);
            let tail = be32(a) + be32(b) + be32(c);
            &&& p.len() >= 2
            &&& from_be16(p) == v
            &&& parse_string(p.skip(2)) == Ok::<(Seq<char>, Seq<u8>), ProtocolError>((name, tail))
        }),
{
    let field = string_field(name);
    let tail = be32(a) + be32(b) + be32(c);
    let p = be16(v) + field + be32(a) + be32(b) + be32(c);
    lemma_cat_assoc(be32(a), be32(b), be32(c));
    lemma_cat_assoc(be16(v) + field + be32(a), be32(b), be32(c));
    lemma_cat_assoc(be16(v) + field, be32(a), be32(b) + be32(c));
    lemma_cat_assoc(be16(v), field, tail);
    assert(p == be16(v) + (field + tail));
    lemma_be16_roundtrip(v, field + tail);
    lemma_skip_prefix(be16(v), field + tail);
    lemma_string_roundtrip(name, tail);
}

/// A CONFIG payload reads back as the configuration it was written from.
proof fn lemma_config_roundtrip(c: Config)
    ensures
        parse_config(payload_bytes(FrameView::Config(c))) == Ok::<FrameView, ProtocolError>(
            FrameView::Config(c),
        ),
{
    let p = payload_bytes(FrameView::Config(c));
    let e = Seq::<u8>::empty();
    let head = seq![c.mapping_mode.spec_code(), c.pressure_curve.spec_code()];
    let r5 = be32(c.area_bottom);
    let r4 = be32(c.area_right) + r5;
    let r3 = be32(c.area_top) + r4;
    let r2 = be32(c.area_left) + r3;
    let r1 = be32(c.target_monitor) + r2;
    lemma_cat_assoc(head + be32(c.target_monitor) + be32(c.area_left) + be32(c.area_top), be32(c.area_right), r5);
    lemma_cat_assoc(head + be32(c.target_monitor) + be32(c.area_left), be32(c.area_top), r4);
    lemma_cat_assoc(head + be32(c.target_monitor), be32(c.area_left), r3);
    lemma_cat_assoc(head, be32(c.target_monitor), r2);
    assert(p == head + r1);
    assert((head + r1).skip(1).skip(1) =~= r1);
    lemma_be32_roundtrip(c.target_monitor, r2);
    lemma_skip_prefix(be32(c.target_monitor), r2);
    lemma_be32_roundtrip(c.area_left, r3);
    lemma_skip_prefix(be32(c.area_left), r3);
    lemma_be32_roundtrip(c.area_top, r4);
    lemma_skip_prefix(be32(c.area_top), r4);
    lemma_be32_roundtrip(c.area_right, r5);
    lemma_skip_prefix(be32(c.area_right), r5);
    assert(r5 + e =~= r5);
    lemma_be32_roundtrip(c.area_bottom, e);
}

/// Whether every name in `f` has a UTF-8 length that fits the 16-bit length
/// prefix of its string field (frames without a name always do).
pub open spec fn names_fit(f: FrameView) -> bool {
    match f {
        FrameView::Hello(h) => encode_utf8(h.device_name).len() <= 0xffff,
        FrameView::HostHello(h) => encode_utf8(h.host_name).len() <= 0xffff,
        _ => true,
    }
}

/// Every frame's payload reads back as the frame, whenever its names' UTF-8
/// lengths fit their 16-bit prefixes.
pub proof fn lemma_payload_roundtrip(f: FrameView)
    requires
        names_fit(f),
    ensures
        parse_payload(frame_type_of_view(f), payload_bytes(f)) == Ok::<FrameView, ProtocolError>(f),
{
    let e = Seq::<u8>::empty();
    match f {
        FrameView::Hello(h) => {
            lemma_versioned_named_roundtrip(h.protocol_version, h.device_name, h.screen_width_mm, h.screen_height_mm, h.max_pressure);
            lemma_three_u32_roundtrip(h.screen_width_mm, h.screen_height_mm, h.max_pressure);
        },
        FrameView::HostHello(h) => {
            lemma_versioned_named_roundtrip(h.protocol_version, h.host_name, h.tablet_width, h.tablet_height, h.pressure_max);
            lemma_three_u32_roundtrip(h.tablet_width, h.tablet_height, h.pressure_max);
        },
        FrameView::PenDown(ev) => {
            lemma_pen_event_roundtrip(ev, e);
            assert(pen_event_bytes(ev) + e =~= pen_event_bytes(ev));
        },
        FrameView::PenMove(ev) => {
            lemma_pen_event_roundtrip(ev, e);
            assert(pen_event_bytes(ev) + e =~= pen_event_bytes(ev));
        },
        FrameView::PenUp(ev) => {
            lemma_pen_event_roundtrip(ev, e);
            assert(pen_event_bytes(ev) + e =~= pen_event_bytes(ev));
        },
        FrameView::PenHover(ev) => {
            lemma_pen_event_roundtrip(ev, e);
            assert(pen_event_bytes(ev) + e =~= pen_event_bytes(ev));
        },
        FrameView::Button(b) => {
            lemma_be64_roundtrip(b.timestamp_us, seq![b.buttons]);
            lemma_skip_prefix(be64(b.timestamp_us), seq![b.buttons]);
        },
        FrameView::Heartbeat(h) => {
            lemma_be64_roundtrip(h.timestamp_us, e);
            assert(be64(h.timestamp_us) + e =~= be64(h.timestamp_us));
        },
        FrameView::Config(c) => {
            lemma_config_roundtrip(c);
        },
    }
}

/// A payload whose length fits in 16 bits has names that fit too.
pub proof fn lemma_names_fit_in_short_payload(f: FrameView)
    requires
        payload_bytes(f).len() <= 0xffff,
    ensures
        names_fit(f),
{
    match f {
        FrameView::Hello(h) => {
            assert(payload_bytes(f).len() >= encode_utf8(h.device_name).len());
        },
        FrameView::HostHello(h) => {
            assert(payload_bytes(f).len() >= encode_utf8(h.host_name).len());
        },
        _ => {},
    }
}

/// Decoding an encoded frame gives the frame back, whatever bytes follow it,
/// for every frame whose payload length fits in the 16-bit length field (this
/// bound also covers the 16-bit length of a HELLO's or HOST_HELLO's name).
pub proof fn lemma_decode_encode_roundtrip(f: FrameView, trailing: Seq<u8>)
    requires
        payload_bytes(f).len() <= 0xffff,
    ensures
        parse_frame(frame_bytes(f) + trailing) == Ok::<FrameView, ProtocolError>(f),
{
    let p = payload_bytes(f);
    let t = frame_type_of_view(f);
    let head = magic_bytes() + seq![PROTOCOL_VERSION, t.spec_code()];
    let len16 = be16(p.len() as u16);
    let b = frame_bytes(f) + trailing;
    lemma_cat_assoc(head + len16, p, trailing);
    lemma_cat_assoc(head, len16, p + trailing);
    assert(b == head + (len16 + (p + trailing)));
    lemma_frame_type_code_roundtrip(t);
    assert(b.take(4) =~= magic_bytes());
    assert(b[4] == PROTOCOL_VERSION);
    assert(b[5] == t.spec_code());
    assert(b.skip(6) =~= len16 + (p + trailing));
    lemma_be16_roundtrip(p.len() as u16, p + trailing);
    assert(b.skip(8) =~= p + trailing);
    lemma_skip_prefix(p, trailing);
    lemma_names_fit_in_short_payload(f);
    lemma_payload_roundtrip(f);
}

// ---------------------------------------------------------------- field layout

/// Where each field of a HOST_HELLO sits in its payload, for every HOST_HELLO:
/// the version in bytes 0..2, the name's byte count in 2..4 and its UTF-8
/// bytes after it, then the tablet width, the tablet height and the maximum
/// pressure, four bytes each, in that order.
pub proof fn lemma_host_hello_layout(h: HostHelloView)
    ensures
        ({
            let p = payload_bytes(FrameView::HostHello(h));
            let name = encode_utf8(h.host_name);
            let n = name.len() as int;
            &&& p.len() == 16 + n
            &&& p.subrange(0, 2) == be16(h.protocol_version)
            &&& p.subrange(2, 4) == be16(name.len() as u16)
            &&& p.subrange(4, 4 + n) == name
            &&& p.subrange(4 + n, 8 + n) == be32(h.tablet_width)
            &&& p.subrange(8 + n, 12 + n) == be32(h.tablet_height)
            &&& p.subrange(12 + n, 16 + n) == be32(h.pressure_max)
        }),
{
    let p = payload_bytes(FrameView::HostHello(h));
    let name = encode_utf8(h.host_name);
    let n = name.len() as int;
    lemma_be16_roundtrip(h.protocol_version, Seq::<u8>::empty());
    lemma_be16_roundtrip(name.len() as u16, Seq::<u8>::empty());
    lemma_be32_roundtrip(h.tablet_width, Seq::<u8>::empty());
    lemma_be32_roundtrip(h.tablet_height, Seq::<u8>::empty());
    lemma_be32_roundtrip(h.pressure_max, Seq::<u8>::empty());
    assert(p.subrange(0, 2) =~= be16(h.protocol_version));
    assert(p.subrange(2, 4) =~= be16(name.len() as u16));
    assert(p.subrange(4, 4 + n) =~= name);
    assert(p.subrange(4 + n, 8 + n) =~= be32(h.tablet_width));
    assert(p.subrange(8 + n, 12 + n) =~= be32(h.tablet_height));
    assert(p.subrange(12 + n, 16 + n) =~= be32(h.pressure_max));
}

/// Where each field of a HELLO sits in its payload, for every HELLO: the
/// version in bytes 0..2, the name's byte count in 2..4 and its UTF-8 bytes
/// after it, then the screen width, the screen height and the maximum
/// pressure, four bytes each, in that order.
pub proof fn lemma_hello_layout(h: HelloView)
    ensures
        ({
            let p = payload_bytes(FrameView::Hello(h));
            let name = encode_utf8(h.device_name);
            let n = name.len() as int;
            &&& p.len() == 16 + n
            &&& p.subrange(0, 2) == be16(h.protocol_version)
            &&& p.subrange(2, 4) == be16(name.len() as u16)
            &&& p.subrange(4, 4 + n) == name
            &&& p.subrange(4 + n, 8 + n) == be32(h.screen_width_mm)
            &&& p.subrange(8 + n, 12 + n) == be32(h.screen_height_mm)
            &&& p.subrange(12 + n, 16 + n) == be32(h.max_pressure)
        }),
{
    let p = payload_bytes(FrameView::Hello(h));
    let name = encode_utf8(h.device_name);
    let n = name.len() as int;
    lemma_be16_roundtrip(h.protocol_version, Seq::<u8>::empty());
    lemma_be16_roundtrip(name.len() as u16, Seq::<u8>::empty());
    lemma_be32_roundtrip(h.screen_width_mm, Seq::<u8>::empty());
    lemma_be32_roundtrip(h.screen_height_mm, Seq::<u8>::empty());
    lemma_be32_roundtrip(h.max_pressure, Seq::<u8>::empty());
    assert(p.subrange(0, 2) =~= be16(h.protocol_version));
    assert(p.subrange(2, 4) =~= be16(name.len() as u16));
    assert(p.subrange(4, 4 + n) =~= name);
    assert(p.subrange(4 + n, 8 + n) =~= be32(h.screen_width_mm));
    assert(p.subrange(8 + n, 12 + n) =~= be32(h.screen_height_mm));
    assert(p.subrange(12 + n, 16 + n) =~= be32(h.max_pressure));
}

/// Which bytes a decoded HOST_HELLO's fields come from, for every payload that
/// decodes: the version from bytes 0..2, the name from the UTF-8 bytes after
/// its 16-bit count at 2..4, then the tablet width from the four bytes right
/// after the name, the height from the next four and the maximum pressure
/// from the four after those.
pub proof fn lemma_host_hello_fields_read(p: Seq<u8>)
    ensures
        parse_host_hello(p) matches Ok(FrameView::HostHello(v)) ==> {
            let n = from_be16(p.skip(2)) as int;
            &&& p.len() >= 16 + n
            &&& v.protocol_version == from_be16(p)
            &&& v.host_name == decode_utf8(p.subrange(4, 4 + n))
            &&& v.tablet_width == from_be32(p.skip(4 + n))
            &&& v.tablet_height == from_be32(p.skip(8 + n))
            &&& v.pressure_max == from_be32(p.skip(12 + n))
        },
{
    if parse_host_hello(p) is Ok {
        let n = from_be16(p.skip(2)) as int;
        let r = p.skip(2).skip(2).skip(n);
        assert(p.skip(2).skip(2).take(n) =~= p.subrange(4, 4 + n));
        assert(r =~= p.skip(4 + n));
        assert(r.skip(4) =~= p.skip(8 + n));
        assert(r.skip(4).skip(4) =~= p.skip(12 + n));
    }
}

/// Which bytes a decoded HELLO's fields come from, for every payload that
/// decodes: the version from bytes 0..2, the name from the UTF-8 bytes after
/// its 16-bit count at 2..4, then the screen width from the four bytes right
/// after the name, the height from the next four and the maximum pressure
/// from the four after those.
pub proof fn lemma_hello_fields_read(p: Seq<u8>)
    ensures
        parse_hello(p) matches Ok(FrameView::Hello(v)) ==> {
            let n = from_be16(p.skip(2)) as int;
            &&& p.len() >= 16 + n
            &&& v.protocol_version == from_be16(p)
            &&& v.device_name == decode_utf8(p.subrange(4, 4 + n))
            &&& v.screen_width_mm == from_be32(p.skip(4 + n))
            &&& v.screen_height_mm == from_be32(p.skip(8 + n))
            &&& v.max_pressure == from_be32(p.skip(12 + n))
        },
{
    if parse_hello(p) is Ok {
        let n = from_be16(p.skip(2)) as int;
        let r = p.skip(2).skip(2).skip(n);
        assert(p.skip(2).skip(2).take(n) =~= p.subrange(4, 4 + n));
        assert(r =~= p.skip(4 + n));
        assert(r.skip(4) =~= p.skip(8 + n));
        assert(r.skip(4).skip(4) =~= p.skip(12 + n));
    }
}

/// Where each field of a pen event sits in its 33 bytes, for every pen
/// event: timestamp 0..8, x 8..12, y 12..16, pressure 16..20, x tilt 20..24,
/// y tilt 24..28, buttons at 28, sequence 29..33.
pub proof fn lemma_pen_event_layout(e: PenEvent)
    ensures
        ({
            let p = pen_event_bytes(e);
            &&& p.len() == 33
            &&& p.subrange(0, 8) == be64(e.timestamp_us)
            &&& p.subrange(8, 12) == be32(e.x_norm)
            &&& p.subrange(12, 16) == be32(e.y_norm)
            &&& p.subrange(16, 20) == be32(e.pressure)
            &&& p.subrange(20, 24) == be32(e.tilt_x)
            &&& p.subrange(24, 28) == be32(e.tilt_y)
            &&& p[28] == e.buttons
            &&& p.subrange(29, 33) == be32(e.sequence)
        }),
{
    let p = pen_event_bytes(e);
    lemma_be64_roundtrip(e.timestamp_us, Seq::<u8>::empty());
    lemma_be32_roundtrip(e.x_norm, Seq::<u8>::empty());
    assert(p.subrange(0, 8) =~= be64(e.timestamp_us));
    assert(p.subrange(8, 12) =~= be32(e.x_norm));
    assert(p.subrange(12, 16) =~= be32(e.y_norm));
    assert(p.subrange(16, 20) =~= be32(e.pressure));
    assert(p.subrange(20, 24) =~= be32(e.tilt_x));
    assert(p.subrange(24, 28) =~= be32(e.tilt_y));
    assert(p.subrange(29, 33) =~= be32(e.sequence));
}

/// Which bytes a decoded pen event's fields come from, for every input that
/// decodes: timestamp from bytes 0..8, x from 8..12, y from 12..16, pressure
/// from 16..20, x tilt from 20..24, y tilt from 24..28, buttons from byte 28,
/// sequence from 29..33.
pub proof fn lemma_pen_event_fields_read(s: Seq<u8>)
    ensures
        parse_pen_event(s) matches Ok(e) ==> {
            &&& s.len() >= 33
            &&& e.timestamp_us == from_be64(s)
            &&& e.x_norm == from_be32(s.skip(8))
            &&& e.y_norm == from_be32(s.skip(12))
            &&& e.pressure == from_be32(s.skip(16))
            &&& e.tilt_x == from_be32(s.skip(20))
            &&& e.tilt_y == from_be32(s.skip(24))
            &&& e.buttons == s[28]
            &&& e.sequence == from_be32(s.skip(29))
        },
{
    if s.len() >= 33 {
        let r1 = s.skip(8);
        assert(r1.skip(4) =~= s.skip(12));
        assert(r1.skip(4).skip(4) =~= s.skip(16));
        assert(r1.skip(4).skip(4).skip(4) =~= s.skip(20));
        assert(r1.skip(4).skip(4).skip(4).skip(4) =~= s.skip(24));
        assert(r1.skip(4).skip(4).skip(4).skip(4).skip(4) =~= s.skip(28));
        assert(r1.skip(4).skip(4).skip(4).skip(4).skip(4).skip(1) =~= s.skip(29));
    }
}

/// Where each field of a CONFIG sits in its 22 bytes, for every configuration:
/// mapping mode at 0, pressure curve at 1, target monitor 2..6, then left,
/// top, right and bottom of the area, four bytes each.
pub proof fn lemma_config_layout(c: Config)
    ensures
        ({
            let p = payload_bytes(FrameView::Config(c));
            &&& p.len() == 22
            &&& p[0] == c.mapping_mode.spec_code()
            &&& p[1] == c.pressure_curve.spec_code()
            &&& p.subrange(2, 6) == be32(c.target_monitor)
            &&& p.subrange(6, 10) == be32(c.area_left)
            &&& p.subrange(10, 14) == be32(c.area_top)
            &&& p.subrange(14, 18) == be32(c.area_right)
            &&& p.subrange(18, 22) == be32(c.area_bottom)
        }),
{
    let p = payload_bytes(FrameView::Config(c));
    lemma_be32_roundtrip(c.target_monitor, Seq::<u8>::empty());
    assert(p.subrange(2, 6) =~= be32(c.target_monitor));
    assert(p.subrange(6, 10) =~= be32(c.area_left));
    assert(p.subrange(10, 14) =~= be32(c.area_top));
    assert(p.subrange(14, 18) =~= be32(c.area_right));
    assert(p.subrange(18, 22) =~= be32(c.area_bottom));
}

/// Which bytes a decoded CONFIG's fields come from, for every payload that
/// decodes: mapping mode from byte 0 (`0` absolute, else relative), curve from
/// byte 1 (`0` linear, `1` soft, else firm), target monitor from 2..6, then
/// left, top, right and bottom from 6..10, 10..14, 14..18 and 18..22.
pub proof fn lemma_config_fields_read(p: Seq<u8>)
    ensures
        parse_config(p) matches Ok(FrameView::Config(c)) ==> {
            &&& p.len() >= 22
            &&& c.mapping_mode == (if p[0] == 0 { MappingMode::Absolute } else { MappingMode::Relative })
            &&& c.pressure_curve == (if p[1] == 0 {
                PressureCurve::Linear
            } else if p[1] == 1 {
                PressureCurve::Soft
            } else {
                PressureCurve::Firm
            })
            &&& c.target_monitor == from_be32(p.skip(2))
            &&& c.area_left == from_be32(p.skip(6))
            &&& c.area_top == from_be32(p.skip(10))
            &&& c.area_right == from_be32(p.skip(14))
            &&& c.area_bottom == from_be32(p.skip(18))
        },
{
    if p.len() >= 22 {
        let r1 = p.skip(1).skip(1);
        assert(r1 =~= p.skip(2));
        assert(r1.skip(4) =~= p.skip(6));
        assert(r1.skip(4).skip(4) =~= p.skip(10));
        assert(r1.skip(4).skip(4).skip(4) =~= p.skip(14));
        assert(r1.skip(4).skip(4).skip(4).skip(4) =~= p.skip(18));
    }
}

/// The bytes of a BUTTON payload (timestamp 0..8, buttons at 8) and of a
/// HEARTBEAT payload (timestamp 0..8), and which bytes decoding reads them from.
pub proof fn lemma_button_heartbeat_layout(b: ButtonEvent, h: Heartbeat, p: Seq<u8>)
    ensures
        payload_bytes(FrameView::Button(b)).len() == 9,
        payload_bytes(FrameView::Button(b)).subrange(0, 8) == be64(b.timestamp_us),
        payload_bytes(FrameView::Button(b))[8] == b.buttons,
        payload_bytes(FrameView::Heartbeat(h)) == be64(h.timestamp_us),
        parse_payload(FrameType::Button, p) matches Ok(FrameView::Button(v)) ==> v.timestamp_us == from_be64(p)
            && v.buttons == p[8],
        parse_payload(FrameType::Heartbeat, p) matches Ok(FrameView::Heartbeat(v)) ==> v.timestamp_us
            == from_be64(p),
{
    lemma_be64_roundtrip(b.timestamp_us, Seq::<u8>::empty());
    assert(payload_bytes(FrameView::Button(b)).subrange(0, 8) =~= be64(b.timestamp_us));
}

/// Where the header fields of every encoded frame sit: the magic `GPAD` in
/// bytes 0..4, the protocol version `1` at 4, the frame type's byte at 5, the
/// payload length (16 bits) in 6..8, and the payload from byte 8 on.
pub proof fn lemma_frame_layout(f: FrameView)
    ensures
        ({
            let b = frame_bytes(f);
            let p = payload_bytes(f);
            &&& b.subrange(0, 4) == seq![0x47u8, 0x50u8, 0x41u8, 0x44u8]
            &&& b[4] == 1
            &&& b[5] == frame_type_of_view(f).spec_code()
            &&& b.subrange(6, 8) == be16(p.len() as u16)
            &&& b.skip(8) == p
        }),
{
    let b = frame_bytes(f);
    let p = payload_bytes(f);
    lemma_be16_roundtrip(p.len() as u16, Seq::<u8>::empty());
    assert(b.subrange(0, 4) =~= seq![0x47u8, 0x50u8, 0x41u8, 0x44u8]);
    assert(b.subrange(6, 8) =~= be16(p.len() as u16));
    assert(b.skip(8) =~= p);
}

} // verus!
