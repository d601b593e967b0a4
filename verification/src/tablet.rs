//! The virtual tablet backend's decisions: which input events report a pen
//! state (tool, touch, buttons, axes, hover distance), and what is left to
//! release when the client goes away. Creating the device and emitting the
//! events is the host program's part.
use vstd::prelude::*;
use crate::mapping::MappedPenState;
use crate::uinput::{
    abs_event, key_event, RawInputEvent, ABS_PRESSURE, ABS_TILT_X, ABS_TILT_Y, ABS_X, ABS_Y,
    BTN_STYLUS, BTN_STYLUS2, BTN_TOOL_PEN, BTN_TOUCH, EV_ABS, EV_KEY,
};

verus! {

pub const BTN_TOOL_RUBBER: u16 = 0x141;
pub const ABS_DISTANCE: u16 = 0x19;

/// Hover distance reported while hovering, touching, and out of range.
pub const DISTANCE_HOVER: i32 = 10;
pub const DISTANCE_CONTACT: i32 = 0;
pub const DISTANCE_OUT_OF_RANGE: i32 = 255;

/// The hover distance for a pen state.
pub open spec fn distance_for(state: MappedPenState) -> i32 {
    if state.hovering {
        DISTANCE_HOVER
    } else if state.in_contact {
        DISTANCE_CONTACT
    } else {
        DISTANCE_OUT_OF_RANGE
    }
}

/// The events that report a pen state, in order: the pen or the rubber tool
/// (the pen is in range while touching or hovering; the eraser flag picks the
/// rubber), touch, the two stylus buttons, X and Y, pressure (zero unless
/// touching), both tilts, and the hover distance.
pub open spec fn state_report(state: MappedPenState) -> Seq<RawInputEvent> {
    let tool = state.in_contact || state.hovering;
    seq![
        key_event(BTN_TOOL_PEN, tool && !state.eraser),
        key_event(BTN_TOOL_RUBBER, tool && state.eraser),
        key_event(BTN_TOUCH, state.in_contact),
        key_event(BTN_STYLUS, state.stylus_primary),
        key_event(BTN_STYLUS2, state.stylus_secondary),
        abs_event(ABS_X, state.x),
        abs_event(ABS_Y, state.y),
        abs_event(ABS_PRESSURE, if state.in_contact { state.pressure } else { 0 }),
        abs_event(ABS_TILT_X, state.tilt_x),
        abs_event(ABS_TILT_Y, state.tilt_y),
        abs_event(ABS_DISTANCE, distance_for(state)),
    ]
}

fn key(code: u16, pressed: bool) -> (e: RawInputEvent)
    ensures
        e == key_event(code, pressed),
{
    RawInputEvent { type_: EV_KEY, code, value: if pressed { 1 } else { 0 } }
}

fn abs(code: u16, value: i32) -> (e: RawInputEvent)
    ensures
        e == abs_event(code, value),
{
    RawInputEvent { type_: EV_ABS, code, value }
}

/// The events that report `state`.
pub fn state_events(state: MappedPenState) -> (events: Vec<RawInputEvent>)
    ensures
        events@ == state_report(state),
        events@.len() == 11,
        events@[8] == (RawInputEvent { type_: 0x03, code: 0x1a, value: state.tilt_x }),
        events@[9] == (RawInputEvent { type_: 0x03, code: 0x1b, value: state.tilt_y }),
{
    let tool_pen = state.in_contact || state.hovering;
    let distance = if state.hovering {
        DISTANCE_HOVER
    } else if state.in_contact {
        DISTANCE_CONTACT
    } else {
        DISTANCE_OUT_OF_RANGE
    };
    let events = vec![
        key(BTN_TOOL_PEN, tool_pen && !state.eraser),
        key(BTN_TOOL_RUBBER, tool_pen && state.eraser),
        key(BTN_TOUCH, state.in_contact),
        key(BTN_STYLUS, state.stylus_primary),
        key(BTN_STYLUS2, state.stylus_secondary),
        abs(ABS_X, state.x),
        abs(ABS_Y, state.y),
        abs(ABS_PRESSURE, if state.in_contact { state.pressure } else { 0 }),
        abs(ABS_TILT_X, state.tilt_x),
        abs(ABS_TILT_Y, state.tilt_y),
        abs(ABS_DISTANCE, distance),
    ];
    assert(events@ =~= state_report(state));
    events
}

/// The state that lifts the pen where it last was: no contact, no hover, no
/// buttons, zero pressure and tilt.
pub open spec fn lift_state(x: i32, y: i32) -> MappedPenState {
    MappedPenState {
        x,
        y,
        pressure: 0,
        tilt_x: 0,
        tilt_y: 0,
        in_contact: false,
        hovering: false,
        stylus_primary: false,
        stylus_secondary: false,
        eraser: false,
    }
}

/// What the backend remembers of the last state it applied.
pub struct TabletTracker {
    last_x: i32,
    last_y: i32,
    in_contact: bool,
}

/// The remembered last position and contact, as a value.
pub struct TrackerView {
    pub last_x: i32,
    pub last_y: i32,
    pub in_contact: bool,
}

impl View for TabletTracker {
    type V = TrackerView;

    closed spec fn view(&self) -> TrackerView {
        TrackerView { last_x: self.last_x, last_y: self.last_y, in_contact: self.in_contact }
    }
}

impl TabletTracker {
    pub fn new() -> (t: Self)
        ensures
            t@ == (TrackerView { last_x: 0, last_y: 0, in_contact: false }),
    {
        TabletTracker { last_x: 0, last_y: 0, in_contact: false }
    }

    /// Remembers the position and contact of a state being applied.
    pub fn record(&mut self, state: MappedPenState)
        ensures
            final(self)@ == (TrackerView { last_x: state.x, last_y: state.y, in_contact: state.in_contact }),
    {
        self.last_x = state.x;
        self.last_y = state.y;
        self.in_contact = state.in_contact;
    }

    /// The state to apply on reset: the pen lifted at its last position while
    /// it is in contact, nothing otherwise.
    pub fn reset_state(&self) -> (r: Option<MappedPenState>)
        ensures
            r is Some <==> self@.in_contact,
            r matches Some(s) ==> s == lift_state(self@.last_x, self@.last_y),
    {
        if self.in_contact {
            Some(
                MappedPenState {
                    x: self.last_x,
                    y: self.last_y,
                    pressure: 0,
                    tilt_x: 0,
                    tilt_y: 0,
                    in_contact: false,
                    hovering: false,
                    stylus_primary: false,
                    stylus_secondary: false,
                    eraser: false,
                },
            )
        } else {
            None
        }
    }
}

/// Resetting after a touch releases everything: the lift state reports no
/// tool in range, no touch, no buttons, zero pressure and the out-of-range
/// distance, at the last position; once applied, nothing is left to reset.
pub proof fn lemma_reset_releases(x: i32, y: i32)
    ensures
        state_report(lift_state(x, y))[0] == key_event(BTN_TOOL_PEN, false),
        state_report(lift_state(x, y))[1] == key_event(BTN_TOOL_RUBBER, false),
        state_report(lift_state(x, y))[2] == key_event(BTN_TOUCH, false),
        state_report(lift_state(x, y))[3] == key_event(BTN_STYLUS, false),
        state_report(lift_state(x, y))[4] == key_event(BTN_STYLUS2, false),
        state_report(lift_state(x, y))[5] == abs_event(ABS_X, x),
        state_report(lift_state(x, y))[6] == abs_event(ABS_Y, y),
        state_report(lift_state(x, y))[7] == abs_event(ABS_PRESSURE, 0),
        state_report(lift_state(x, y))[10] == abs_event(ABS_DISTANCE, DISTANCE_OUT_OF_RANGE),
        !lift_state(x, y).in_contact,
{
}

/// A pressure value is reported only while the pen touches.
pub proof fn lemma_pressure_only_in_contact(state: MappedPenState)
    ensures
        !state.in_contact ==> state_report(state)[7] == abs_event(ABS_PRESSURE, 0),
        state.in_contact ==> state_report(state)[7] == abs_event(ABS_PRESSURE, state.pressure),
{
}

/// What a state report says, event by event, for every pen state: the pen
/// tool while touching or hovering and not erasing, the rubber tool while
/// touching or hovering and erasing, touch while touching, the two stylus
/// buttons, then X, Y, pressure (zero unless touching), X tilt and Y tilt each
/// carrying its own field, and the hover distance (10 hovering, 0 touching,
/// 255 otherwise).
pub proof fn lemma_state_report_contents(s: MappedPenState)
    ensures
        state_report(s).len() == 11,
        state_report(s)[0] == (RawInputEvent {
            type_: 0x01, code: 0x140, value: if (s.in_contact || s.hovering) && !s.eraser { 1 } else { 0 } }),
        state_report(s)[1] == (RawInputEvent {
            type_: 0x01, code: 0x141, value: if (s.in_contact || s.hovering) && s.eraser { 1 } else { 0 } }),
        state_report(s)[2] == (RawInputEvent { type_: 0x01, code: 0x14a, value: if s.in_contact { 1 } else { 0 } }),
        state_report(s)[3] == (RawInputEvent { type_: 0x01, code: 0x14b, value: if s.stylus_primary { 1 } else { 0 } }),
        state_report(s)[4] == (RawInputEvent { type_: 0x01, code: 0x14c, value: if s.stylus_secondary { 1 } else { 0 } }),
        state_report(s)[5] == (RawInputEvent { type_: 0x03, code: 0x00, value: s.x }),
        state_report(s)[6] == (RawInputEvent { type_: 0x03, code: 0x01, value: s.y }),
        state_report(s)[7] == (RawInputEvent { type_: 0x03, code: 0x18, value: if s.in_contact { s.pressure } else { 0 } }),
        state_report(s)[8] == (RawInputEvent { type_: 0x03, code: 0x1a, value: s.tilt_x }),
        state_report(s)[9] == (RawInputEvent { type_: 0x03, code: 0x1b, value: s.tilt_y }),
        state_report(s)[10] == (RawInputEvent {
            type_: 0x03, code: 0x19, value: if s.hovering { 10 } else if s.in_contact { 0 } else { 255 } }),
{
}

} // verus!
