//! Driver logic for a network co-processor reached over a serial bus: the
//! chip-select handshake, the request/reply framing, and the socket lifecycle.
//! Everything that touches pins, the bus or a clock is left to the caller; the
//! library decides what to send, how to read what came back, and when to stop.
use vstd::prelude::*;

pub mod chip_select;
pub mod commands;
pub mod poll;

use crate::chip_select::WifiNinaChipSelectError;
use crate::commands::socket::SocketStatus;
use crate::commands::wifi::WifiStatus;

verus! {

/// Every way a driver operation can fail. `SpiError` is whatever the bus
/// implementation reports.
#[derive(Debug)]
pub enum Error<SpiError> {
    ChipSelectPinError,
    ChipSelectTimeout,
    ResponseTimeout,
    MissingParam(u8),
    UnexpectedParam(u8),
    MismatchedParamSize(usize, usize),
    ErrorResponse,
    UnexpectedResponse(u8, u8),
    ConnectionFailed(WifiStatus),
    ConnectionTimeout,
    SocketConnectionFailed(SocketStatus),
    SocketClosed,
    SocketTimeout,
    NoSocketAvailable,
    SpiError(SpiError),
    ResetPinError,
}

impl<SpiError> Error<SpiError> {
    /// Wraps a bus failure.
    pub fn spi(err: SpiError) -> (r: Error<SpiError>)
        ensures
            r == Error::SpiError(err),
    {
        Error::SpiError(err)
    }

    /// A pin failure of the chip-select gate, either line, is a pin error; a
    /// readiness timeout is a chip-select timeout.
    pub fn from_chip_select<BE, CE>(err: WifiNinaChipSelectError<BE, CE>) -> (r: Error<SpiError>)
        ensures
            r == (match err {
                WifiNinaChipSelectError::DeviceReadyTimeout => Error::<SpiError>::ChipSelectTimeout,
                _ => Error::<SpiError>::ChipSelectPinError,
            }),
    {
        match err {
            WifiNinaChipSelectError::BusyPinError(_) => Error::ChipSelectPinError,
            WifiNinaChipSelectError::CsPinError(_) => Error::ChipSelectPinError,
            WifiNinaChipSelectError::DeviceReadyTimeout => Error::ChipSelectTimeout,
        }
    }
}

impl<BE, CE, SE> From<WifiNinaChipSelectError<BE, CE>> for Error<SE> {
    fn from(err: WifiNinaChipSelectError<BE, CE>) -> (r: Self) {
        Error::from_chip_select(err)
    }
}

impl<BE, CE, SE> vstd::std_specs::convert::FromSpecImpl<WifiNinaChipSelectError<BE, CE>> for Error<SE> {
    open spec fn obeys_from_spec() -> bool {
        true
    }

    open spec fn from_spec(err: WifiNinaChipSelectError<BE, CE>) -> Error<SE> {
        match err {
            WifiNinaChipSelectError::DeviceReadyTimeout => Error::<SE>::ChipSelectTimeout,
            _ => Error::<SE>::ChipSelectPinError,
        }
    }
}

} // verus!
