//! Error taxonomy of the driver: transport failures, framing violations,
//! device-reported status codes of either dialect, and precondition failures
//! of the core itself.
use vstd::prelude::*;

verus! {

/// Device-reported condition of the XML (v6) dialect.
#[derive(Debug, Clone, Copy, PartialEq, Eq, Structural)]
pub enum XmlErrorKind {
    /// The device answered `ERR!UNSUPPORTED`.
    UnsupportedCmd,
    /// The device's reply could not be read as the expected XML or ack.
    MalformedResponse,
    /// The device acknowledged with a non-zero status.
    StatusNotOk,
}

/// Error of any driver operation.
#[derive(Debug, Clone, Copy, PartialEq, Eq, Structural)]
pub enum Error {
    /// Transport failure: stall, disconnect, short read or write.
    Io,
    /// Transport read that ran out of time.
    Timeout,
    /// Framing or magic violation, unexpected sync byte, malformed status.
    Proto,
    /// Non-zero status word from a preloader command.
    Preloader(u16),
    /// Device-reported XFlash (v5) status, kept raw for display.
    XFlash(u32),
    /// Device-reported XML (v6) condition.
    Xml(XmlErrorKind),
    /// Precondition failure: port not open, DA data missing, unknown
    /// hardware code, partition not found, or data larger than a partition.
    Core,
}

impl Error {
    /// A short fixed description of the error variant.
    pub fn describe(&self) -> (r: &'static str)
        ensures
            r@.len() > 0,
    {
        proof {
            reveal_strlit("transport failure");
            reveal_strlit("transport timeout");
            reveal_strlit("protocol violation");
            reveal_strlit("preloader status");
            reveal_strlit("xflash status");
            reveal_strlit("xml status");
            reveal_strlit("precondition failure");
        }
        match self {
            Error::Io => "transport failure",
            Error::Timeout => "transport timeout",
            Error::Proto => "protocol violation",
            Error::Preloader(_) => "preloader status",
            Error::XFlash(_) => "xflash status",
            Error::Xml(_) => "xml status",
            Error::Core => "precondition failure",
        }
    }
}

} // verus!
