//! The `/dev/uinput` virtual tablet: the device description that is written to
//! the kernel, and the input events that report a pen sample. Writing them to
//! the device (and the `ioctl` calls) is the host program's part.
use vstd::prelude::*;
use vstd::string::StringSliceAdditionalSpecFns;
use crate::mapping::{MappedPenEvent, TabletExtents};

verus! {

pub const DEVICE_NAME: &'static str = "GraphPad Virtual Tablet";

pub const EV_SYN: u16 = 0x00;
pub const EV_KEY: u16 = 0x01;
pub const EV_ABS: u16 = 0x03;

pub const SYN_REPORT: u16 = 0x00;

pub const BTN_TOOL_PEN: u16 = 0x140;
pub const BTN_TOUCH: u16 = 0x14a;
pub const BTN_STYLUS: u16 = 0x14b;
pub const BTN_STYLUS2: u16 = 0x14c;

pub const ABS_X: u16 = 0x00;
pub const ABS_Y: u16 = 0x01;
pub const ABS_PRESSURE: u16 = 0x18;
pub const ABS_TILT_X: u16 = 0x1a;
pub const ABS_TILT_Y: u16 = 0x1b;

pub const BUS_USB: u16 = 0x03;

/// Vendor and product identifiers of the virtual tablet.
pub const VENDOR_ID: u16 = 0x1209;
pub const PRODUCT_ID: u16 = 0x4750;

#[derive(Debug, Clone, Copy, PartialEq, Eq, Structural)]
pub struct InputId {
    pub bustype: u16,
    pub vendor: u16,
    pub product: u16,
    pub version: u16,
}

/// The legacy `uinput_user_dev` device description.
#[derive(Clone, Copy)]
pub struct UInputUserDev {
    pub name: [i8; 80],
    pub id: InputId,
    pub ff_effects_max: u32,
    pub absmax: [i32; 64],
    pub absmin: [i32; 64],
    pub absfuzz: [i32; 64],
    pub absflat: [i32; 64],
}

/// The NUL-padded name field: the device name's bytes, at most 79 of them.
pub open spec fn device_name_field() -> Seq<i8> {
    let bytes = DEVICE_NAME.spec_bytes();
    Seq::new(80, |i: int| if i < bytes.len() && i < 79 { bytes[i] as i8 } else { 0i8 })
}

/// The axis limits for `extents`: X, Y, pressure and both tilt axes get their
/// range, every other axis `0`.
pub open spec fn abs_limit(extents: TabletExtents, axis: int, upper: bool) -> i32 {
    if axis == ABS_X {
        if upper { extents.x_max } else { extents.x_min }
    } else if axis == ABS_Y {
        if upper { extents.y_max } else { extents.y_min }
    } else if axis == ABS_PRESSURE {
        if upper { extents.pressure_max } else { extents.pressure_min }
    } else if axis == ABS_TILT_X || axis == ABS_TILT_Y {
        if upper { extents.tilt_max } else { extents.tilt_min }
    } else {
        0
    }
}

impl UInputUserDev {
    pub fn new(extents: TabletExtents) -> (dev: Self)
        ensures
            dev.name@ == device_name_field(),
            dev.id == (InputId { bustype: BUS_USB, vendor: VENDOR_ID, product: PRODUCT_ID, version: 1 }),
            dev.ff_effects_max == 0,
            dev.absmin@[0x00] == extents.x_min && dev.absmax@[0x00] == extents.x_max,
            dev.absmin@[0x01] == extents.y_min && dev.absmax@[0x01] == extents.y_max,
            dev.absmin@[0x18] == extents.pressure_min && dev.absmax@[0x18] == extents.pressure_max,
            dev.absmin@[0x1a] == extents.tilt_min && dev.absmax@[0x1a] == extents.tilt_max,
            dev.absmin@[0x1b] == extents.tilt_min && dev.absmax@[0x1b] == extents.tilt_max,
            forall|a: int|
                0 <= a < 64 && a != 0x00 && a != 0x01 && a != 0x18 && a != 0x1a && a != 0x1b
                    ==> #[trigger] dev.absmin@[a] == 0 && dev.absmax@[a] == 0,
            forall|a: int| 0 <= a < 64 ==> #[trigger] dev.absmin@[a] == abs_limit(extents, a, false),
            forall|a: int| 0 <= a < 64 ==> #[trigger] dev.absmax@[a] == abs_limit(extents, a, true),
            forall|a: int| 0 <= a < 64 ==> #[trigger] dev.absfuzz@[a] == 0,
            forall|a: int| 0 <= a < 64 ==> #[trigger] dev.absflat@[a] == 0,
    {
        let mut dev = Self {
            name: [0; 80],
            id: InputId { bustype: BUS_USB, vendor: VENDOR_ID, product: PRODUCT_ID, version: 1 },
            ff_effects_max: 0,
            absmax: [0; 64],
            absmin: [0; 64],
            absfuzz: [0; 64],
            absflat: [0; 64],
        };

        let bytes = DEVICE_NAME.as_bytes();
        let limit = if bytes.len() < 79 { bytes.len() } else { 79 };
        let mut slot: usize = 0;
        while slot < limit
            invariant
                limit <= bytes@.len(),
                limit <= 79,
                slot <= limit,
                bytes@ == DEVICE_NAME.spec_bytes(),
                limit == (if bytes@.len() < 79 { bytes@.len() } else { 79 }),
                forall|i: int| 0 <= i < slot ==> #[trigger] dev.name@[i] == bytes@[i] as i8,
                forall|i: int| slot <= i < 80 ==> #[trigger] dev.name@[i] == 0i8,
                dev.id == (InputId { bustype: BUS_USB, vendor: VENDOR_ID, product: PRODUCT_ID, version: 1 }),
                dev.ff_effects_max == 0,
                forall|a: int| 0 <= a < 64 ==> #[trigger] dev.absmin@[a] == 0,
                forall|a: int| 0 <= a < 64 ==> #[trigger] dev.absmax@[a] == 0,
                forall|a: int| 0 <= a < 64 ==> #[trigger] dev.absfuzz@[a] == 0,
                forall|a: int| 0 <= a < 64 ==> #[trigger] dev.absflat@[a] == 0,
            decreases limit - slot,
        {
            dev.name[slot] = bytes[slot] as i8;
            slot = slot + 1;
        }
        assert(dev.name@ =~= device_name_field());

        dev.absmin[ABS_X as usize] = extents.x_min;
        dev.absmax[ABS_X as usize] = extents.x_max;
        dev.absmin[ABS_Y as usize] = extents.y_min;
        dev.absmax[ABS_Y as usize] = extents.y_max;
        dev.absmin[ABS_PRESSURE as usize] = extents.pressure_min;
        dev.absmax[ABS_PRESSURE as usize] = extents.pressure_max;
        dev.absmin[ABS_TILT_X as usize] = extents.tilt_min;
        dev.absmax[ABS_TILT_X as usize] = extents.tilt_max;
        dev.absmin[ABS_TILT_Y as usize] = extents.tilt_min;
        dev.absmax[ABS_TILT_Y as usize] = extents.tilt_max;

        dev
    }
}

/// One input event as the kernel receives it, without its timestamp.
#[derive(Debug, Clone, Copy, PartialEq, Eq, Structural)]
pub struct RawInputEvent {
    pub type_: u16,
    pub code: u16,
    pub value: i32,
}

/// A key event: `1` pressed, `0` released.
pub open spec fn key_event(code: u16, pressed: bool) -> RawInputEvent {
    RawInputEvent { type_: EV_KEY, code, value: if pressed { 1 } else { 0 } }
}

/// An absolute-axis event.
pub open spec fn abs_event(code: u16, value: i32) -> RawInputEvent {
    RawInputEvent { type_: EV_ABS, code, value }
}

/// The events that report a mapped pen sample, in the order they are written:
/// the pen tool in proximity while down or hovering, touch while down, the two
/// stylus buttons from flag bits `0x01` and `0x02`, the five axes, then a
/// synchronization report.
pub open spec fn pen_report(event: MappedPenEvent) -> Seq<RawInputEvent> {
    seq![
        key_event(BTN_TOOL_PEN, event.tool_down || event.hover),
        key_event(BTN_TOUCH, event.tool_down),
        key_event(BTN_STYLUS, event.buttons & 0b0000_0001 != 0),
        key_event(BTN_STYLUS2, event.buttons & 0b0000_0010 != 0),
        abs_event(ABS_X, event.x),
        abs_event(ABS_Y, event.y),
        abs_event(ABS_PRESSURE, event.pressure),
        abs_event(ABS_TILT_X, event.tilt_x),
        abs_event(ABS_TILT_Y, event.tilt_y),
        RawInputEvent { type_: EV_SYN, code: SYN_REPORT, value: 0 },
    ]
}

fn emit_key(events: &mut Vec<RawInputEvent>, code: u16, pressed: bool)
    ensures
        final(events)@ == old(events)@.push(key_event(code, pressed)),
{
    events.push(RawInputEvent { type_: EV_KEY, code, value: if pressed { 1 } else { 0 } });
}

fn emit_abs(events: &mut Vec<RawInputEvent>, code: u16, value: i32)
    ensures
        final(events)@ == old(events)@.push(abs_event(code, value)),
{
    events.push(RawInputEvent { type_: EV_ABS, code, value });
}

fn emit_syn(events: &mut Vec<RawInputEvent>)
    ensures
        final(events)@ == old(events)@.push(RawInputEvent { type_: EV_SYN, code: SYN_REPORT, value: 0 }),
{
    events.push(RawInputEvent { type_: EV_SYN, code: SYN_REPORT, value: 0 });
}

/// The events to write for a mapped pen sample.
pub fn pen_report_events(event: MappedPenEvent) -> (events: Vec<RawInputEvent>)
    ensures
        events@ == pen_report(event),
        events@.len() == 10,
        events@[0] == (RawInputEvent {
            type_: 0x01,
            code: 0x140,
            value: if event.tool_down || event.hover { 1 } else { 0 },
        }),
{
    let mut events: Vec<RawInputEvent> = Vec::new();
    let in_proximity = event.tool_down || event.hover;
    emit_key(&mut events, BTN_TOOL_PEN, in_proximity);
    emit_key(&mut events, BTN_TOUCH, event.tool_down);
    emit_key(&mut events, BTN_STYLUS, event.buttons & 0b0000_0001 != 0);
    emit_key(&mut events, BTN_STYLUS2, event.buttons & 0b0000_0010 != 0);
    emit_abs(&mut events, ABS_X, event.x);
    emit_abs(&mut events, ABS_Y, event.y);
    emit_abs(&mut events, ABS_PRESSURE, event.pressure);
    emit_abs(&mut events, ABS_TILT_X, event.tilt_x);
    emit_abs(&mut events, ABS_TILT_Y, event.tilt_y);
    emit_syn(&mut events);
    assert(events@ =~= pen_report(event));
    events
}

/// The axis ranges of the device description: X, Y and pressure get the
/// extents' own ranges, both tilt axes get the tilt range, every other axis
/// is `0..=0`.
pub proof fn lemma_axis_ranges(extents: TabletExtents, a: int)
    requires
        0 <= a < 64,
    ensures
        a == 0x00 ==> abs_limit(extents, a, false) == extents.x_min && abs_limit(extents, a, true) == extents.x_max,
        a == 0x01 ==> abs_limit(extents, a, false) == extents.y_min && abs_limit(extents, a, true) == extents.y_max,
        a == 0x18 ==> abs_limit(extents, a, false) == extents.pressure_min && abs_limit(extents, a, true)
            == extents.pressure_max,
        a == 0x1a ==> abs_limit(extents, a, false) == extents.tilt_min && abs_limit(extents, a, true)
            == extents.tilt_max,
        a == 0x1b ==> abs_limit(extents, a, false) == extents.tilt_min && abs_limit(extents, a, true)
            == extents.tilt_max,
        a != 0x00 && a != 0x01 && a != 0x18 && a != 0x1a && a != 0x1b ==> abs_limit(extents, a, false)
            == 0 && abs_limit(extents, a, true) == 0,
{
}

/// What a pen report says, event by event, for every mapped sample: the pen
/// tool is in proximity exactly while the pen is down or hovering (a hovering
/// pen is in proximity); touch exactly while down; the primary and secondary
/// stylus keys from flag bits `0x01` and `0x02`; then X, Y, pressure, X tilt
/// and Y tilt each carrying its own field; then a synchronization report.
pub proof fn lemma_pen_report_contents(event: MappedPenEvent)
    ensures
        pen_report(event).len() == 10,
        pen_report(event)[0] == (RawInputEvent {
            type_: 0x01, code: 0x140, value: if event.tool_down || event.hover { 1 } else { 0 } }),
        event.hover ==> pen_report(event)[0].value == 1,
        pen_report(event)[1] == (RawInputEvent {
            type_: 0x01, code: 0x14a, value: if event.tool_down { 1 } else { 0 } }),
        pen_report(event)[2] == (RawInputEvent {
            type_: 0x01, code: 0x14b, value: if event.buttons & 1 != 0 { 1 } else { 0 } }),
        pen_report(event)[3] == (RawInputEvent {
            type_: 0x01, code: 0x14c, value: if event.buttons & 2 != 0 { 1 } else { 0 } }),
        pen_report(event)[4] == (RawInputEvent { type_: 0x03, code: 0x00, value: event.x }),
        pen_report(event)[5] == (RawInputEvent { type_: 0x03, code: 0x01, value: event.y }),
        pen_report(event)[6] == (RawInputEvent { type_: 0x03, code: 0x18, value: event.pressure }),
        pen_report(event)[7] == (RawInputEvent { type_: 0x03, code: 0x1a, value: event.tilt_x }),
        pen_report(event)[8] == (RawInputEvent { type_: 0x03, code: 0x1b, value: event.tilt_y }),
        pen_report(event)[9] == (RawInputEvent { type_: 0x00, code: 0x00, value: 0 }),
{
}

} // verus!
