//! GraphPad host core: the versioned binary pen-streaming protocol, the
//! per-client session logic, the tablet mapping data, and the virtual tablet
//! backends' event logic.
pub mod endian;
pub mod bufio;
pub mod protocol;
pub mod session;
pub mod mapping;
pub mod uinput;
pub mod tablet;
pub mod windows;

pub use mapping::{MappedPenEvent, MappedPenState, Mapper, TabletExtents};
pub use protocol::{
    buttons, decode_frame, encode_frame, ButtonEvent, Config, Frame, FrameType, Heartbeat, Hello,
    HostHello, MappingMode, PenEvent, PressureCurve, ProtocolError, DEFAULT_PORT, MAGIC,
    PRESSURE_MAX, PROTOCOL_VERSION, SERVICE_TYPE, TABLET_AXIS_MAX, TILT_MAX,
};
pub use session::{
    client_hello_frame, frame_type_name, host_hello_frame, HostConfig, PenSession, SessionAction,
    SessionStats,
};
