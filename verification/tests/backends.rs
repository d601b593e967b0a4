use graphpad_core::mapping::{
    MappedPenEvent, MappedPenState, Mapper, PressureCurve, TabletExtents, DEFAULT_TILT_MAX,
    DEFAULT_TILT_MIN,
};
use graphpad_core::tablet::{state_events, TabletTracker, ABS_DISTANCE, BTN_TOOL_RUBBER};
use graphpad_core::uinput::{
    pen_report_events, RawInputEvent, UInputUserDev, ABS_PRESSURE, ABS_TILT_X, ABS_TILT_Y, ABS_X,
    ABS_Y, BTN_STYLUS, BTN_STYLUS2, BTN_TOOL_PEN, BTN_TOUCH, BUS_USB, DEVICE_NAME, EV_ABS, EV_KEY,
    EV_SYN,
};
use graphpad_core::windows::WindowsInkTablet;

#[test]
fn default_extents_and_mapper() {
    let e = TabletExtents::default();
    assert_eq!(e.x_min, 0);
    assert_eq!(e.x_max, 65_535);
    assert_eq!(e.y_max, 65_535);
    assert_eq!(e.pressure_max, 4_096);
    assert_eq!(e.tilt_min, DEFAULT_TILT_MIN);
    assert_eq!(e.tilt_max, DEFAULT_TILT_MAX);
    let m = Mapper::default();
    assert_eq!(m.extents(), e);
    assert_eq!(m.pressure_curve(), PressureCurve::Linear);
    assert_eq!(PressureCurve::default(), PressureCurve::Linear);
    let custom = TabletExtents { x_min: 1, x_max: 2, y_min: 3, y_max: 4, pressure_min: 5, pressure_max: 6, tilt_min: -7, tilt_max: 8 };
    let m = Mapper::new(custom, PressureCurve::Soft);
    assert_eq!(m.extents(), custom);
    assert_eq!(m.pressure_curve(), PressureCurve::Soft);
}

#[test]
fn uinput_device_description() {
    let extents = TabletExtents { x_min: 1, x_max: 100, y_min: 2, y_max: 200, pressure_min: 3, pressure_max: 300, tilt_min: -40, tilt_max: 40 };
    let dev = UInputUserDev::new(extents);
    let name: Vec<u8> = dev.name.iter().take_while(|b| **b != 0).map(|b| *b as u8).collect();
    assert_eq!(name, DEVICE_NAME.as_bytes());
    assert!(dev.name[DEVICE_NAME.len()..].iter().all(|b| *b == 0));
    assert_eq!(dev.id.bustype, BUS_USB);
    assert_eq!(dev.id.vendor, 0x1209);
    assert_eq!(dev.id.product, 0x4750);
    assert_eq!(dev.id.version, 1);
    assert_eq!(dev.ff_effects_max, 0);
    assert_eq!(dev.absmin[ABS_X as usize], 1);
    assert_eq!(dev.absmax[ABS_X as usize], 100);
    assert_eq!(dev.absmin[ABS_Y as usize], 2);
    assert_eq!(dev.absmax[ABS_Y as usize], 200);
    assert_eq!(dev.absmin[ABS_PRESSURE as usize], 3);
    assert_eq!(dev.absmax[ABS_PRESSURE as usize], 300);
    assert_eq!(dev.absmin[ABS_TILT_X as usize], -40);
    assert_eq!(dev.absmax[ABS_TILT_Y as usize], 40);
    assert_eq!(dev.absmax[2], 0);
    assert!(dev.absfuzz.iter().all(|v| *v == 0));
    assert!(dev.absflat.iter().all(|v| *v == 0));
}

fn ev(type_: u16, code: u16, value: i32) -> RawInputEvent {
    RawInputEvent { type_, code, value }
}

#[test]
fn pen_report_for_a_touching_sample() {
    let event = MappedPenEvent {
        x: 10,
        y: 20,
        pressure: 30,
        tilt_x: -4,
        tilt_y: 5,
        buttons: 0b0000_0010,
        tool_down: true,
        hover: false,
        sequence: 1,
        timestamp_us: 2,
    };
    assert_eq!(
        pen_report_events(event),
        vec![
            ev(EV_KEY, BTN_TOOL_PEN, 1),
            ev(EV_KEY, BTN_TOUCH, 1),
            ev(EV_KEY, BTN_STYLUS, 0),
            ev(EV_KEY, BTN_STYLUS2, 1),
            ev(EV_ABS, ABS_X, 10),
            ev(EV_ABS, ABS_Y, 20),
            ev(EV_ABS, ABS_PRESSURE, 30),
            ev(EV_ABS, ABS_TILT_X, -4),
            ev(EV_ABS, ABS_TILT_Y, 5),
            ev(EV_SYN, 0, 0),
        ]
    );
}

fn state(in_contact: bool, hovering: bool, eraser: bool) -> MappedPenState {
    MappedPenState {
        x: 7,
        y: 8,
        pressure: 900,
        tilt_x: 1,
        tilt_y: 2,
        in_contact,
        hovering,
        stylus_primary: true,
        stylus_secondary: false,
        eraser,
    }
}

#[test]
fn state_events_for_hover_contact_and_eraser() {
    let hover = state_events(state(false, true, false));
    assert_eq!(hover[0], ev(EV_KEY, BTN_TOOL_PEN, 1));
    assert_eq!(hover[1], ev(EV_KEY, BTN_TOOL_RUBBER, 0));
    assert_eq!(hover[2], ev(EV_KEY, BTN_TOUCH, 0));
    assert_eq!(hover[3], ev(EV_KEY, BTN_STYLUS, 1));
    assert_eq!(hover[7], ev(EV_ABS, ABS_PRESSURE, 0));
    assert_eq!(hover[10], ev(EV_ABS, ABS_DISTANCE, 10));
    assert_eq!(hover.len(), 11);

    let touch = state_events(state(true, false, false));
    assert_eq!(touch[2], ev(EV_KEY, BTN_TOUCH, 1));
    assert_eq!(touch[7], ev(EV_ABS, ABS_PRESSURE, 900));
    assert_eq!(touch[10], ev(EV_ABS, ABS_DISTANCE, 0));

    let rubber = state_events(state(true, false, true));
    assert_eq!(rubber[0], ev(EV_KEY, BTN_TOOL_PEN, 0));
    assert_eq!(rubber[1], ev(EV_KEY, BTN_TOOL_RUBBER, 1));

    let away = state_events(state(false, false, false));
    assert_eq!(away[0], ev(EV_KEY, BTN_TOOL_PEN, 0));
    assert_eq!(away[10], ev(EV_ABS, ABS_DISTANCE, 255));
}

#[test]
fn tracker_resets_only_after_contact() {
    let mut t = TabletTracker::new();
    assert_eq!(t.reset_state(), None);
    t.record(state(true, false, false));
    let lift = t.reset_state().unwrap();
    assert_eq!(lift.x, 7);
    assert_eq!(lift.y, 8);
    assert!(!lift.in_contact && !lift.hovering && !lift.eraser);
    assert_eq!(lift.pressure, 0);
    t.record(lift);
    assert_eq!(t.reset_state(), None);
}

#[test]
fn windows_backend_is_unsupported() {
    let err = WindowsInkTablet::open().unwrap_err();
    assert_eq!(err.kind(), std::io::ErrorKind::Unsupported);
    let mut tablet = WindowsInkTablet::default();
    let event = MappedPenEvent { x: 0, y: 0, pressure: 0, tilt_x: 0, tilt_y: 0, buttons: 0, tool_down: false, hover: false, sequence: 0, timestamp_us: 0 };
    let err = tablet.emit_pen(event).unwrap_err();
    assert_eq!(err.kind(), std::io::ErrorKind::Unsupported);
}

#[test]
fn mapped_state_takes_flags_from_buttons() {
    let event = MappedPenEvent { x: 1, y: 2, pressure: 3, tilt_x: 4, tilt_y: 5, buttons: 0b0000_0101, tool_down: true, hover: false, sequence: 0, timestamp_us: 0 };
    let s = MappedPenState::from_mapped_event(event);
    assert_eq!((s.x, s.y, s.pressure, s.tilt_x, s.tilt_y), (1, 2, 3, 4, 5));
    assert!(s.in_contact && !s.hovering);
    assert!(s.stylus_primary && !s.stylus_secondary && s.eraser);
}
