//! Per-client session logic: what each received frame does to the session's
//! state, and what the host must do in response.
//!
//! The session decides; the host carries the decision out. `handle_frame`
//! returns a `SessionAction` (apply a pen sample to the input backend, update
//! the mapping configuration, reset the backend, or nothing), and the caller
//! performs it.
use vstd::prelude::*;
use crate::endian::from_be16;
use crate::protocol::format::{header_len, parse_frame};
use vstd::slice::slice_subrange;
use crate::protocol::{
    decode_frame, decode_result_view, Config, Frame, FrameType, FrameView, Hello, HostHello,
    PenEvent, ProtocolError, PRESSURE_MAX, PROTOCOL_VERSION, TABLET_AXIS_MAX,
};

verus! {

pub struct HostConfig {
    pub bind_addr: String,
    pub host_name: String,
}

#[derive(Debug, Clone, Copy, PartialEq, Eq, Structural)]
pub struct SessionStats {
    pub frames_received: u64,
    pub pen_moves: u64,
    pub last_sequence: u32,
    pub dropped_sequences: u64,
}

/// What the host must do after the session has taken a frame in.
#[derive(Debug, Clone, Copy, PartialEq, Eq, Structural)]
pub enum SessionAction {
    /// Nothing to apply.
    Ignore,
    /// Apply the client's mapping configuration.
    UpdateMapping(Config),
    /// Map the pen sample and apply it to the input backend, with the pen in
    /// contact and hovering as given.
    ApplyPen { event: PenEvent, in_contact: bool, hovering: bool },
    /// Reset the input backend (the client is gone).
    Reset,
}

/// The state of a session as a value.
pub struct SessionState {
    pub in_contact: bool,
    pub stats: SessionStats,
    /// The mapping configuration of the latest CONFIG, if one was received;
    /// pen samples are mapped with it (with the host's defaults before any).
    pub mapping: Option<Config>,
}

pub struct PenSession {
    in_contact: bool,
    stats: SessionStats,
    mapping: Option<Config>,
}

/// The state of a new session: pen lifted, all counters zero.
pub open spec fn initial_state() -> SessionState {
    SessionState {
        in_contact: false,
        stats: SessionStats { frames_received: 0, pen_moves: 0, last_sequence: 0, dropped_sequences: 0 },
        mapping: None,
    }
}

/// How many sequence numbers a pen frame numbered `sequence` skipped after the
/// last one seen: none when no sequence was seen yet (`last == 0`).
pub open spec fn sequence_gap(last: u32, sequence: u32) -> int {
    if last > 0 && sequence > last + 1 {
        sequence - last - 1
    } else {
        0
    }
}

/// The statistics after a pen frame numbered `sequence`.
pub open spec fn track_sequence_spec(stats: SessionStats, sequence: u32) -> SessionStats {
    SessionStats {
        dropped_sequences: (stats.dropped_sequences + sequence_gap(stats.last_sequence, sequence)) as u64,
        last_sequence: sequence,
        ..stats
    }
}

/// Whether the counters can take `frame` in without overflowing: the frame
/// count, the move count for PEN_MOVE, and for a pen frame the dropped count,
/// and the increment of the last sequence number that the gap check computes.
pub open spec fn can_take(s: SessionState, frame: FrameView) -> bool {
    let pen_sequence = match frame {
        FrameView::PenDown(e) => Some(e.sequence),
        FrameView::PenMove(e) => Some(e.sequence),
        FrameView::PenUp(e) => Some(e.sequence),
        FrameView::PenHover(e) => Some(e.sequence),
        _ => None,
    };
    &&& s.stats.frames_received < u64::MAX
    &&& frame is PenMove ==> s.stats.pen_moves < u64::MAX
    &&& pen_sequence matches Some(seq) ==> {
        &&& s.stats.last_sequence > 0 ==> s.stats.last_sequence < u32::MAX
        &&& s.stats.dropped_sequences + sequence_gap(s.stats.last_sequence, seq) <= u64::MAX
    }
}

/// What taking `frame` in does: the next state and the action for the host.
/// Every frame is counted. PEN_DOWN puts the pen in contact and PEN_UP lifts
/// it; PEN_MOVE is counted as a move and applied with the current contact;
/// PEN_HOVER is applied as hovering, out of contact. Every pen frame updates
/// the sequence tracking. CONFIG becomes the mapping configuration and asks
/// for a mapping update; other frames ask for nothing.
pub open spec fn step(s: SessionState, frame: FrameView) -> (SessionState, SessionAction) {
    let counted = SessionStats { frames_received: (s.stats.frames_received + 1) as u64, ..s.stats };
    match frame {
        FrameView::Config(c) => (
            SessionState { in_contact: s.in_contact, stats: counted, mapping: Some(c) },
            SessionAction::UpdateMapping(c),
        ),
        FrameView::PenDown(e) => (
            SessionState { in_contact: true, stats: track_sequence_spec(counted, e.sequence), ..s },
            SessionAction::ApplyPen { event: e, in_contact: true, hovering: false },
        ),
        FrameView::PenMove(e) => (
            SessionState {
                in_contact: s.in_contact,
                stats: track_sequence_spec(
                    SessionStats { pen_moves: (counted.pen_moves + 1) as u64, ..counted },
                    e.sequence,
                ),
                ..s
            },
            SessionAction::ApplyPen { event: e, in_contact: s.in_contact, hovering: false },
        ),
        FrameView::PenUp(e) => (
            SessionState { in_contact: false, stats: track_sequence_spec(counted, e.sequence), ..s },
            SessionAction::ApplyPen { event: e, in_contact: false, hovering: false },
        ),
        FrameView::PenHover(e) => (
            SessionState { stats: track_sequence_spec(counted, e.sequence), ..s },
            SessionAction::ApplyPen { event: e, in_contact: false, hovering: true },
        ),
        _ => (SessionState { stats: counted, ..s }, SessionAction::Ignore),
    }
}

/// The state after the client disconnects: pen lifted, counters and mapping kept.
pub open spec fn disconnected(s: SessionState) -> SessionState {
    SessionState { in_contact: false, ..s }
}

impl View for PenSession {
    type V = SessionState;

    closed spec fn view(&self) -> SessionState {
        SessionState { in_contact: self.in_contact, stats: self.stats, mapping: self.mapping }
    }
}

impl PenSession {
    pub fn new() -> (s: Self)
        ensures
            s@ == initial_state(),
    {
        PenSession {
            in_contact: false,
            stats: SessionStats { frames_received: 0, pen_moves: 0, last_sequence: 0, dropped_sequences: 0 },
            mapping: None,
        }
    }

    /// The mapping configuration that pen samples are to be mapped with: the
    /// latest CONFIG received, or `None` for the host's defaults.
    pub fn mapping_config(&self) -> (r: Option<Config>)
        ensures
            r == self@.mapping,
    {
        self.mapping
    }

    pub fn stats(&self) -> (r: &SessionStats)
        ensures
            *r == self@.stats,
    {
        &self.stats
    }

    /// Whether `handle_frame` can take `frame` in (no counter would overflow).
    pub fn can_handle(&self, frame: &Frame) -> (r: bool)
        ensures
            r == can_take(self@, frame@),
    {
        let st = &self.stats;
        if st.frames_received == u64::MAX {
            return false;
        }
        let sequence = match frame {
            Frame::PenDown(e) => e.sequence,
            Frame::PenMove(e) => {
                if st.pen_moves == u64::MAX {
                    return false;
                }
                e.sequence
            },
            Frame::PenUp(e) => e.sequence,
            Frame::PenHover(e) => e.sequence,
            _ => return true,
        };
        if st.last_sequence > 0 && st.last_sequence == u32::MAX {
            return false;
        }
        if st.last_sequence > 0 && sequence > st.last_sequence + 1 {
            let gap = (sequence - st.last_sequence - 1) as u64;
            st.dropped_sequences <= u64::MAX - gap
        } else {
            true
        }
    }

    /// Takes a received frame in and says what the host must do.
    pub fn handle_frame(&mut self, frame: Frame) -> (action: SessionAction)
        requires
            can_take(old(self)@, frame@),
        ensures
            (final(self)@, action) == step(old(self)@, frame@),
    {
        self.stats.frames_received = self.stats.frames_received + 1;
        match frame {
            Frame::Config(config) => {
                self.mapping = Some(config);
                SessionAction::UpdateMapping(config)
            },
            Frame::PenDown(event) => {
                self.in_contact = true;
                self.track_sequence(event.sequence);
                SessionAction::ApplyPen { event, in_contact: true, hovering: false }
            },
            Frame::PenMove(event) => {
                self.stats.pen_moves = self.stats.pen_moves + 1;
                self.track_sequence(event.sequence);
                SessionAction::ApplyPen { event, in_contact: self.in_contact, hovering: false }
            },
            Frame::PenUp(event) => {
                self.in_contact = false;
                self.track_sequence(event.sequence);
                SessionAction::ApplyPen { event, in_contact: false, hovering: false }
            },
            Frame::PenHover(event) => {
                self.track_sequence(event.sequence);
                SessionAction::ApplyPen { event, in_contact: false, hovering: true }
            },
            Frame::Hello(_) | Frame::Button(_) | Frame::Heartbeat(_) | Frame::HostHello(_) => {
                SessionAction::Ignore
            },
        }
    }

    /// Records the sequence number of a pen frame, counting the numbers that
    /// were skipped since the last one.
    fn track_sequence(&mut self, sequence: u32)
        requires
            old(self).stats.last_sequence > 0 ==> old(self).stats.last_sequence < u32::MAX,
            old(self).stats.dropped_sequences + sequence_gap(old(self).stats.last_sequence, sequence)
                <= u64::MAX,
        ensures
            final(self).in_contact == old(self).in_contact,
            final(self).mapping == old(self).mapping,
            final(self).stats == track_sequence_spec(old(self).stats, sequence),
    {
        if self.stats.last_sequence > 0 && sequence > self.stats.last_sequence + 1 {
            self.stats.dropped_sequences = self.stats.dropped_sequences + (sequence
                - self.stats.last_sequence - 1) as u64;
        }
        self.stats.last_sequence = sequence;
    }

    /// The client is gone: the pen is lifted and the backend must be reset.
    pub fn disconnect(&mut self) -> (action: SessionAction)
        ensures
            final(self)@ == disconnected(old(self)@),
            action == SessionAction::Reset,
    {
        self.in_contact = false;
        SessionAction::Reset
    }
}

/// The wire name of a frame type.
pub open spec fn frame_type_label(t: FrameType) -> Seq<char> {
    match t {
        FrameType::Hello => "HELLO"@,
        FrameType::HostHello => "HOST_HELLO"@,
        FrameType::PenDown => "PEN_DOWN"@,
        FrameType::PenMove => "PEN_MOVE"@,
        FrameType::PenUp => "PEN_UP"@,
        FrameType::PenHover => "PEN_HOVER"@,
        FrameType::Button => "BUTTON"@,
        FrameType::Heartbeat => "HEARTBEAT"@,
        FrameType::Config => "CONFIG"@,
    }
}

pub fn frame_type_name(frame_type: FrameType) -> (name: &'static str)
    ensures
        name@ == frame_type_label(frame_type),
{
    match frame_type {
        FrameType::Hello => "HELLO",
        FrameType::HostHello => "HOST_HELLO",
        FrameType::PenDown => "PEN_DOWN",
        FrameType::PenMove => "PEN_MOVE",
        FrameType::PenUp => "PEN_UP",
        FrameType::PenHover => "PEN_HOVER",
        FrameType::Button => "BUTTON",
        FrameType::Heartbeat => "HEARTBEAT",
        FrameType::Config => "CONFIG",
    }
}

/// The bit pattern of the `f32` value `1.0`, the maximum pressure a client announces.
pub const UNIT_PRESSURE_BITS: u32 = 0x3f80_0000;

/// Convenience helper for clients sending HELLO. The two sizes are the bit
/// patterns of the `f32` millimetre values; the announced maximum pressure is `1.0`.
pub fn client_hello_frame(device_name: &str, width_mm: u32, height_mm: u32) -> (frame: Frame)
    ensures
        frame@ == FrameView::Hello(
            crate::protocol::HelloView {
                protocol_version: PROTOCOL_VERSION as u16,
                device_name: device_name@,
                screen_width_mm: width_mm,
                screen_height_mm: height_mm,
                max_pressure: UNIT_PRESSURE_BITS,
            },
        ),
{
    Frame::Hello(
        Hello {
            protocol_version: PROTOCOL_VERSION as u16,
            device_name: device_name.to_owned(),
            screen_width_mm: width_mm,
            screen_height_mm: height_mm,
            max_pressure: UNIT_PRESSURE_BITS,
        },
    )
}

/// The HOST_HELLO the host sends to a new client: protocol version, host name,
/// and the tablet's axis and pressure ranges.
pub fn host_hello_frame(host_name: String) -> (frame: Frame)
    ensures
        frame@ == FrameView::HostHello(
            crate::protocol::HostHelloView {
                protocol_version: PROTOCOL_VERSION as u16,
                host_name: host_name@,
                tablet_width: TABLET_AXIS_MAX as u32,
                tablet_height: TABLET_AXIS_MAX as u32,
                pressure_max: PRESSURE_MAX as u32,
            },
        ),
{
    Frame::HostHello(
        HostHello {
            protocol_version: PROTOCOL_VERSION as u16,
            host_name,
            tablet_width: TABLET_AXIS_MAX as u32,
            tablet_height: TABLET_AXIS_MAX as u32,
            pressure_max: PRESSURE_MAX as u32,
        },
    )
}

/// The length of the frame at the front of a receive buffer, once the buffer
/// holds all of it: the header, then as many payload bytes as its length field says.
pub open spec fn complete_frame_len_spec(b: Seq<u8>) -> Option<int> {
    if b.len() < header_len() {
        None
    } else {
        let n = header_len() + from_be16(b.skip(6));
        if b.len() < n {
            None
        } else {
            Some(n)
        }
    }
}

/// How many bytes of `buf` make up the frame at its front, if they have all
/// arrived (the stream reader splits frames off its buffer by this length).
pub fn complete_frame_len(buf: &[u8]) -> (r: Option<usize>)
    ensures
        r matches Some(n) ==> complete_frame_len_spec(buf@) == Some(n as int),
        r is None ==> complete_frame_len_spec(buf@) is None,
{
    if buf.len() < 8 {
        return None;
    }
    let length = (buf[6] as usize) * 256 + buf[7] as usize;
    let frame_len = 8 + length;
    if buf.len() < frame_len {
        None
    } else {
        Some(frame_len)
    }
}

// ---------------------------------------------------------------- laws

/// A frame decodes the same from just its own bytes as from a buffer that
/// holds more after it: splitting a complete frame off a receive buffer does
/// not change what it decodes to.
pub proof fn lemma_frame_decodes_from_own_bytes(b: Seq<u8>)
    requires
        complete_frame_len_spec(b) is Some,
    ensures
        parse_frame(b.take(complete_frame_len_spec(b)->0)) == parse_frame(b),
{
    let n = complete_frame_len_spec(b)->0;
    let f = b.take(n);
    assert(f.take(4) =~= b.take(4));
    assert(f.skip(6).take(2) =~= b.skip(6).take(2));
    assert(f[4] == b[4]);
    assert(f[5] == b[5]);
    assert(f.skip(6)[0] == b.skip(6)[0]);
    assert(f.skip(6)[1] == b.skip(6)[1]);
    let len = from_be16(b.skip(6)) as int;
    assert(f.skip(8).take(len) =~= b.skip(8).take(len));
}

/// After PEN_DOWN a PEN_MOVE is applied in contact; after PEN_UP, or after the
/// client disconnects, it is applied out of contact.
pub proof fn lemma_contact_follows_pen(s: SessionState, down: PenEvent, up: PenEvent, mv: PenEvent)
    ensures
        step(step(s, FrameView::PenDown(down)).0, FrameView::PenMove(mv)).1
            == (SessionAction::ApplyPen { event: mv, in_contact: true, hovering: false }),
        step(step(s, FrameView::PenUp(up)).0, FrameView::PenMove(mv)).1
            == (SessionAction::ApplyPen { event: mv, in_contact: false, hovering: false }),
        step(disconnected(s), FrameView::PenMove(mv)).1
            == (SessionAction::ApplyPen { event: mv, in_contact: false, hovering: false }),
{
}

/// A pen sample is never applied both in contact and hovering.
pub proof fn lemma_never_hovering_in_contact(s: SessionState, frame: FrameView)
    ensures
        step(s, frame).1 matches SessionAction::ApplyPen { in_contact, hovering, .. } ==> !(in_contact
            && hovering),
{
}

/// Every frame taken in is counted once, and no counter goes down: the move
/// count grows by one exactly for PEN_MOVE, and the dropped count never shrinks.
pub proof fn lemma_counters(s: SessionState, frame: FrameView)
    requires
        can_take(s, frame),
    ensures
        step(s, frame).0.stats.frames_received == s.stats.frames_received + 1,
        step(s, frame).0.stats.pen_moves == s.stats.pen_moves + (if frame is PenMove { 1int } else { 0 }),
        step(s, frame).0.stats.dropped_sequences >= s.stats.dropped_sequences,
{
}

/// The statistics after pen frames numbered `seqs`, in order.
pub open spec fn track_run(stats: SessionStats, seqs: Seq<u32>) -> SessionStats
    decreases seqs.len(),
{
    if seqs.len() == 0 {
        stats
    } else {
        track_run(track_sequence_spec(stats, seqs[0]), seqs.drop_first())
    }
}

/// Numbers that go strictly up, all above `last`.
pub open spec fn increasing_after(last: u32, seqs: Seq<u32>) -> bool {
    &&& forall|i: int| 0 <= i < seqs.len() ==> last < #[trigger] seqs[i]
    &&& forall|i: int, j: int| 0 <= i < j < seqs.len() ==> seqs[i] < seqs[j]
}

/// Once a sequence number has been seen, a run of pen frames whose numbers go
/// strictly up counts as dropped exactly the numbers it skipped: the last
/// number reached, less the one before the run, less the frames in the run.
/// In particular a run of consecutive numbers drops nothing.
pub proof fn lemma_dropped_counts_skipped(stats: SessionStats, seqs: Seq<u32>)
    requires
        stats.last_sequence > 0,
        seqs.len() > 0,
        increasing_after(stats.last_sequence, seqs),
        stats.dropped_sequences + seqs.last() - stats.last_sequence <= u64::MAX,
    ensures
        track_run(stats, seqs).last_sequence == seqs.last(),
        track_run(stats, seqs).dropped_sequences == stats.dropped_sequences + seqs.last()
            - stats.last_sequence - seqs.len(),
    decreases seqs.len(),
{
    let next = track_sequence_spec(stats, seqs[0]);
    assert(seqs[0] <= seqs.last()) by {
        if seqs.len() > 1 {
            assert(seqs[0] < seqs[seqs.len() - 1]);
        }
    }
    if seqs.len() > 1 {
        let rest = seqs.drop_first();
        assert(rest.last() == seqs.last());
        assert(increasing_after(next.last_sequence, rest)) by {
            assert forall|i: int| 0 <= i < rest.len() implies next.last_sequence < #[trigger] rest[i] by {
                assert(seqs[0] < seqs[i + 1]);
            }
            assert forall|i: int, j: int| 0 <= i < j < rest.len() implies rest[i] < rest[j] by {
                assert(seqs[i + 1] < seqs[j + 1]);
            }
        }
        lemma_dropped_counts_skipped(next, rest);
        assert(track_run(stats, seqs) == track_run(next, rest));
    } else {
        assert(seqs.drop_first().len() == 0);
        assert(track_run(next, seqs.drop_first()) == next);
        assert(track_run(stats, seqs) == track_run(next, seqs.drop_first()));
    }
}

/// One thing that happens to a session: a frame is received, or the client
/// disconnects.
pub enum SessionInput {
    Received(FrameView),
    Disconnect,
}

/// The state after one input.
pub open spec fn apply_input(s: SessionState, input: SessionInput) -> SessionState {
    match input {
        SessionInput::Received(f) => step(s, f).0,
        SessionInput::Disconnect => disconnected(s),
    }
}

/// The state after the inputs, in order.
pub open spec fn run(s: SessionState, inputs: Seq<SessionInput>) -> SessionState
    decreases inputs.len(),
{
    if inputs.len() == 0 {
        s
    } else {
        apply_input(run(s, inputs.drop_last()), inputs.last())
    }
}

/// Whether the pen touches after the inputs: a PEN_DOWN was received and no
/// PEN_UP or disconnect came after the latest one.
pub open spec fn touching_after(inputs: Seq<SessionInput>) -> bool
    decreases inputs.len(),
{
    if inputs.len() == 0 {
        false
    } else {
        match inputs.last() {
            SessionInput::Received(FrameView::PenDown(_)) => true,
            SessionInput::Received(FrameView::PenUp(_)) => false,
            SessionInput::Disconnect => false,
            _ => touching_after(inputs.drop_last()),
        }
    }
}

/// How many frames the inputs hold.
pub open spec fn frames_in(inputs: Seq<SessionInput>) -> nat
    decreases inputs.len(),
{
    if inputs.len() == 0 {
        0
    } else {
        frames_in(inputs.drop_last()) + if inputs.last() is Received { 1nat } else { 0nat }
    }
}

/// How many PEN_MOVE frames the inputs hold.
pub open spec fn moves_in(inputs: Seq<SessionInput>) -> nat
    decreases inputs.len(),
{
    if inputs.len() == 0 {
        0
    } else {
        moves_in(inputs.drop_last()) + match inputs.last() {
            SessionInput::Received(FrameView::PenMove(_)) => 1nat,
            _ => 0nat,
        }
    }
}

/// The configuration of the latest CONFIG among the inputs, if any.
pub open spec fn latest_config(inputs: Seq<SessionInput>) -> Option<Config>
    decreases inputs.len(),
{
    if inputs.len() == 0 {
        None
    } else {
        match inputs.last() {
            SessionInput::Received(FrameView::Config(c)) => Some(c),
            _ => latest_config(inputs.drop_last()),
        }
    }
}

/// Over any run of a new session: the pen touches exactly when a PEN_DOWN was
/// received with no PEN_UP or disconnect after the latest one; the frame count
/// is the number of frames received, the move count the number of PEN_MOVE
/// frames (never more than the frame count); and the mapping configuration is
/// that of the latest CONFIG. (Counts are bounded only so that they fit in `u64`.)
pub proof fn lemma_session_run(inputs: Seq<SessionInput>)
    requires
        inputs.len() <= u64::MAX,
    ensures
        run(initial_state(), inputs).in_contact == touching_after(inputs),
        run(initial_state(), inputs).stats.frames_received == frames_in(inputs),
        run(initial_state(), inputs).stats.pen_moves == moves_in(inputs),
        moves_in(inputs) <= frames_in(inputs) <= inputs.len(),
        run(initial_state(), inputs).mapping == latest_config(inputs),
    decreases inputs.len(),
{
    if inputs.len() > 0 {
        lemma_session_run(inputs.drop_last());
    }
}

/// Over any run of a new session, the next pen frame is applied in contact
/// for PEN_DOWN, out of contact for PEN_UP and PEN_HOVER, and for PEN_MOVE in
/// contact exactly when the pen touches after the run; it is hovering exactly
/// for PEN_HOVER.
pub proof fn lemma_pen_action_after_run(inputs: Seq<SessionInput>, e: PenEvent)
    requires
        inputs.len() <= u64::MAX,
    ensures
        step(run(initial_state(), inputs), FrameView::PenDown(e)).1
            == (SessionAction::ApplyPen { event: e, in_contact: true, hovering: false }),
        step(run(initial_state(), inputs), FrameView::PenMove(e)).1
            == (SessionAction::ApplyPen { event: e, in_contact: touching_after(inputs), hovering: false }),
        step(run(initial_state(), inputs), FrameView::PenUp(e)).1
            == (SessionAction::ApplyPen { event: e, in_contact: false, hovering: false }),
        step(run(initial_state(), inputs), FrameView::PenHover(e)).1
            == (SessionAction::ApplyPen { event: e, in_contact: false, hovering: true }),
{
    lemma_session_run(inputs);
}

// ---------------------------------------------------------------- receive buffer

/// What draining a receive buffer yields, as a value: the frames decoded in
/// order, how many bytes were split off, and the decode error that stopped it.
#[verifier::ext_equal]
pub struct DrainView {
    pub frames: Seq<FrameView>,
    pub consumed: int,
    pub error: Option<ProtocolError>,
}

/// What a frame split off a receive buffer decodes to (`parse_frame`, kept
/// folded here so that reasoning about draining does not unfold the format).
#[verifier::opaque]
pub open spec fn split_frame_decodes_to(f: Seq<u8>) -> Result<FrameView, ProtocolError> {
    parse_frame(f)
}

/// Draining a receive buffer: while a complete frame is at its front, split it
/// off and decode it; a frame that decodes is kept and draining goes on, a
/// frame that fails to decode is dropped and draining stops with its error.
/// An incomplete frame stays in the buffer for the next read.
pub open spec fn drain_spec(b: Seq<u8>) -> DrainView
    decreases b.len(),
{
    match complete_frame_len_spec(b) {
        None => DrainView { frames: Seq::empty(), consumed: 0, error: None },
        Some(n) => if n <= 0 || n > b.len() {
            DrainView { frames: Seq::empty(), consumed: 0, error: None }
        } else {
            match split_frame_decodes_to(b.take(n)) {
                Err(e) => DrainView { frames: Seq::empty(), consumed: n, error: Some(e) },
                Ok(f) => {
                    let rest = drain_spec(b.skip(n));
                    DrainView {
                        frames: seq![f] + rest.frames,
                        consumed: n + rest.consumed,
                        error: rest.error,
                    }
                },
            }
        },
    }
}

/// A complete frame is at least a header long and no longer than the buffer.
pub proof fn lemma_complete_frame_len_bounds(b: Seq<u8>)
    ensures
        complete_frame_len_spec(b) matches Some(n) ==> header_len() <= n <= b.len(),
{
}

/// Draining never splits off more bytes than the buffer holds.
pub proof fn lemma_drain_consumed_bounds(b: Seq<u8>)
    ensures
        0 <= drain_spec(b).consumed <= b.len(),
    decreases b.len(),
{
    lemma_complete_frame_len_bounds(b);
    if let Some(n) = complete_frame_len_spec(b) {
        if split_frame_decodes_to(b.take(n)) is Ok {
            lemma_drain_consumed_bounds(b.skip(n));
        }
    }
}

/// The frames drained from a receive buffer, the bytes to split off it, and
/// the decode error that stopped the draining, if any.
pub struct DrainedFrames {
    pub frames: Vec<Frame>,
    pub consumed: usize,
    pub error: Option<ProtocolError>,
}

/// Drains the complete frames at the front of a receive buffer, in order.
pub fn drain_frames(buf: &[u8]) -> (out: DrainedFrames)
    ensures
        out.consumed == drain_spec(buf@).consumed,
        out.error == drain_spec(buf@).error,
        out.frames@.len() == drain_spec(buf@).frames.len(),
        forall|i: int| 0 <= i < out.frames@.len() ==> #[trigger] out.frames@[i]@ == drain_spec(buf@).frames[i],
{
    let mut frames: Vec<Frame> = Vec::new();
    let mut consumed: usize = 0;
    let ghost mut views: Seq<FrameView> = Seq::empty();
    assert(buf@.skip(0) =~= buf@);
    assert(views + drain_spec(buf@).frames =~= drain_spec(buf@).frames);
    loop
        invariant
            consumed <= buf@.len(),
            frames@.len() == views.len(),
            forall|i: int| 0 <= i < frames@.len() ==> #[trigger] frames@[i]@ == views[i],
            views + drain_spec(buf@.skip(consumed as int)).frames =~= drain_spec(buf@).frames,
            consumed + drain_spec(buf@.skip(consumed as int)).consumed == drain_spec(buf@).consumed,
            drain_spec(buf@.skip(consumed as int)).error == drain_spec(buf@).error,
        decreases buf@.len() - consumed,
    {
        let rest = slice_subrange(buf, consumed, buf.len());
        assert(rest@ =~= buf@.skip(consumed as int));
        proof {
            lemma_complete_frame_len_bounds(rest@);
        }
        match complete_frame_len(rest) {
            None => {
                assert(views + Seq::<FrameView>::empty() =~= views);
                return DrainedFrames { frames, consumed, error: None };
            },
            Some(n) => {
                let frame_bytes = slice_subrange(rest, 0, n);
                assert(frame_bytes@ =~= rest@.take(n as int));
                let decoded = decode_frame(frame_bytes);
                assert(decode_result_view(decoded) == split_frame_decodes_to(frame_bytes@)) by {
                    reveal(split_frame_decodes_to);
                }
                match decoded {
                    Err(e) => {
                        assert(views + Seq::<FrameView>::empty() =~= views);
                        return DrainedFrames { frames, consumed: consumed + n, error: Some(e) };
                    },
                    Ok(f) => {
                        proof {
                            let next = drain_spec(rest@.skip(n as int));
                            assert(rest@.skip(n as int) =~= buf@.skip(consumed + n));
                            assert(views + (seq![f@] + next.frames) =~= views.push(f@) + next.frames);
                            views = views.push(f@);
                        }
                        frames.push(f);
                        consumed = consumed + n;
                    },
                }
            },
        }
    }
}

/// Frames come out in order however the stream was cut into reads: draining
/// the bytes of one read, keeping what was left, and draining that with the
/// next read's bytes gives the same frames, byte count and error as draining
/// both reads' bytes at once. Once a decode error has stopped the draining,
/// later bytes change nothing.
pub proof fn lemma_drain_chunked(a: Seq<u8>, b: Seq<u8>)
    ensures
        drain_spec(a).error is Some ==> drain_spec(a + b) == drain_spec(a),
        drain_spec(a).error is None ==> drain_spec(a + b) == (DrainView {
            frames: drain_spec(a).frames + drain_spec(a.skip(drain_spec(a).consumed) + b).frames,
            consumed: drain_spec(a).consumed + drain_spec(a.skip(drain_spec(a).consumed) + b).consumed,
            error: drain_spec(a.skip(drain_spec(a).consumed) + b).error,
        }),
    decreases a.len(),
{
    let ab = a + b;
    lemma_complete_frame_len_bounds(a);
    lemma_complete_frame_len_bounds(ab);
    match complete_frame_len_spec(a) {
        None => {
            assert(a.skip(0) + b =~= ab);
            assert(Seq::<FrameView>::empty() + drain_spec(ab).frames =~= drain_spec(ab).frames);
        },
        Some(n) => {
            assert(ab.skip(6)[0] == a.skip(6)[0]);
            assert(ab.skip(6)[1] == a.skip(6)[1]);
            assert(complete_frame_len_spec(ab) == Some(n));
            assert(ab.take(n) =~= a.take(n));
            assert(ab.skip(n) =~= a.skip(n) + b);
            match split_frame_decodes_to(a.take(n)) {
                Err(e) => {},
                Ok(f) => {
                    let r = drain_spec(a.skip(n));
                    lemma_drain_chunked(a.skip(n), b);
                    lemma_drain_consumed_bounds(a.skip(n));
                    if r.error is None {
                        assert(a.skip(n + r.consumed) =~= a.skip(n).skip(r.consumed));
                        let r2 = drain_spec(a.skip(n).skip(r.consumed) + b);
                        assert(seq![f] + (r.frames + r2.frames) =~= (seq![f] + r.frames) + r2.frames);
                    }
                },
            }
        },
    }
}

} // verus!
