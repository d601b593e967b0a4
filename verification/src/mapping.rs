//! Tablet extents and the mapper configuration that turns normalized pen
//! samples into tablet axis values.
//!
//! The scaling itself is floating-point arithmetic on the sample's `f32`
//! values and is done by the host program; this module holds the plain
//! integer data that it works with and produces.
use vstd::prelude::*;
use crate::protocol::buttons::{ERASER, STYLUS_PRIMARY, STYLUS_SECONDARY};

verus! {

pub const DEFAULT_TABLET_MAX_X: i32 = 65_535;
pub const DEFAULT_TABLET_MAX_Y: i32 = 65_535;
pub const DEFAULT_PRESSURE_MAX: i32 = 4_096;
pub const DEFAULT_TILT_MIN: i32 = -60;
pub const DEFAULT_TILT_MAX: i32 = 60;

#[derive(Debug, Clone, Copy, PartialEq, Eq, Structural)]
pub struct TabletExtents {
    pub x_min: i32,
    pub x_max: i32,
    pub y_min: i32,
    pub y_max: i32,
    pub pressure_min: i32,
    pub pressure_max: i32,
    pub tilt_min: i32,
    pub tilt_max: i32,
}

/// The default extents: both axes `0..=65535`, pressure `0..=4096`, tilt `-60..=60`.
pub open spec fn default_extents() -> TabletExtents {
    TabletExtents {
        x_min: 0,
        x_max: DEFAULT_TABLET_MAX_X,
        y_min: 0,
        y_max: DEFAULT_TABLET_MAX_Y,
        pressure_min: 0,
        pressure_max: DEFAULT_PRESSURE_MAX,
        tilt_min: DEFAULT_TILT_MIN,
        tilt_max: DEFAULT_TILT_MAX,
    }
}

impl Default for TabletExtents {
    fn default() -> (r: Self)
        ensures
            r == default_extents(),
    {
        Self {
            x_min: 0,
            x_max: DEFAULT_TABLET_MAX_X,
            y_min: 0,
            y_max: DEFAULT_TABLET_MAX_Y,
            pressure_min: 0,
            pressure_max: DEFAULT_PRESSURE_MAX,
            tilt_min: DEFAULT_TILT_MIN,
            tilt_max: DEFAULT_TILT_MAX,
        }
    }
}

#[derive(Debug, Clone, Copy, PartialEq, Eq, Structural)]
pub enum PressureCurve {
    Linear,
    Soft,
    Firm,
}

impl Default for PressureCurve {
    fn default() -> (r: Self)
        ensures
            r == PressureCurve::Linear,
    {
        Self::Linear
    }
}

#[derive(Debug, Clone, Copy, PartialEq, Eq, Structural)]
pub struct Mapper {
    extents: TabletExtents,
    pressure_curve: PressureCurve,
}

impl Mapper {
    /// The extents this mapper scales to.
    pub closed spec fn spec_extents(self) -> TabletExtents {
        self.extents
    }

    /// The curve this mapper applies to pressure.
    pub closed spec fn spec_pressure_curve(self) -> PressureCurve {
        self.pressure_curve
    }

    pub fn new(extents: TabletExtents, pressure_curve: PressureCurve) -> (m: Self)
        ensures
            m.spec_extents() == extents,
            m.spec_pressure_curve() == pressure_curve,
    {
        Self { extents, pressure_curve }
    }

    pub fn extents(&self) -> (e: TabletExtents)
        ensures
            e == self.spec_extents(),
    {
        self.extents
    }

    pub fn pressure_curve(&self) -> (c: PressureCurve)
        ensures
            c == self.spec_pressure_curve(),
    {
        self.pressure_curve
    }
}

impl Default for Mapper {
    fn default() -> (m: Self)
        ensures
            m.spec_extents() == default_extents(),
            m.spec_pressure_curve() == PressureCurve::Linear,
    {
        Self::new(TabletExtents::default(), PressureCurve::Linear)
    }
}

/// A pen sample scaled to tablet axis values.
#[derive(Debug, Clone, Copy, PartialEq, Eq, Structural)]
pub struct MappedPenEvent {
    pub x: i32,
    pub y: i32,
    pub pressure: i32,
    pub tilt_x: i32,
    pub tilt_y: i32,
    pub buttons: u8,
    pub tool_down: bool,
    pub hover: bool,
    pub sequence: u32,
    pub timestamp_us: u64,
}

/// The pen state that an input backend applies: axis values, contact and
/// hover, and the stylus buttons.
#[derive(Debug, Clone, Copy, PartialEq, Eq, Structural)]
pub struct MappedPenState {
    pub x: i32,
    pub y: i32,
    pub pressure: i32,
    pub tilt_x: i32,
    pub tilt_y: i32,
    pub in_contact: bool,
    pub hovering: bool,
    pub stylus_primary: bool,
    pub stylus_secondary: bool,
    pub eraser: bool,
}

impl MappedPenState {
    /// The state a backend applies for a mapped sample: its axis values, in
    /// contact while the tool is down, hovering as the sample says, and the
    /// primary, secondary and eraser buttons from their flag bits.
    pub fn from_mapped_event(event: MappedPenEvent) -> (state: Self)
        ensures
            state == (MappedPenState {
                x: event.x,
                y: event.y,
                pressure: event.pressure,
                tilt_x: event.tilt_x,
                tilt_y: event.tilt_y,
                in_contact: event.tool_down,
                hovering: event.hover,
                stylus_primary: event.buttons & STYLUS_PRIMARY != 0,
                stylus_secondary: event.buttons & STYLUS_SECONDARY != 0,
                eraser: event.buttons & ERASER != 0,
            }),
    {
        MappedPenState {
            x: event.x,
            y: event.y,
            pressure: event.pressure,
            tilt_x: event.tilt_x,
            tilt_y: event.tilt_y,
            in_contact: event.tool_down,
            hovering: event.hover,
            stylus_primary: event.buttons & STYLUS_PRIMARY != 0,
            stylus_secondary: event.buttons & STYLUS_SECONDARY != 0,
            eraser: event.buttons & ERASER != 0,
        }
    }
}

} // verus!
