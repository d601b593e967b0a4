//! The Windows Ink backend, which does not exist yet: both operations report
//! that it is unsupported.
use vstd::prelude::*;
use crate::mapping::MappedPenEvent;

verus! {

/// `std::io::Error::new(std::io::ErrorKind::Unsupported, message)`: an I/O
/// error of kind `Unsupported` carrying `message`. Nothing is claimed of the
/// returned value.
#[verifier::external_body]
fn unsupported_io_error(message: &str) -> std::io::Error {
    std::io::Error::new(std::io::ErrorKind::Unsupported, message)
}

#[derive(Debug, Default)]
pub struct WindowsInkTablet;

impl WindowsInkTablet {
    pub fn open() -> (r: Result<Self, std::io::Error>)
        ensures
            r is Err,
    {
        Err(unsupported_io_error("Windows Ink backend is planned for Phase 3 via WinUHid or a VHF digitizer driver"))
    }

    pub fn emit_pen(&mut self, _event: MappedPenEvent) -> (r: Result<(), std::io::Error>)
        ensures
            r is Err,
    {
        Err(unsupported_io_error("Windows Ink backend is not implemented yet"))
    }
}

} // verus!
