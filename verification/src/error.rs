//! The closed taxonomy of reasons a read can fail.

use vstd::prelude::*;

verus! {

/// Why no reading could be produced. `I` is the pin's native error type,
/// preserved generically so a caller can still match on it.
#[derive(Debug, PartialEq, Eq)]
pub enum ErrorKind<I> {
    /// The pin itself signalled a fault while reading or driving the line.
    Io(I),
    /// The frame was fully sampled but its checksum byte disagreed with the
    /// sum of the data bytes; both values are kept for diagnostics.
    Checksum {
        /// The low 8 bits of the sum of the four data bytes, as computed.
        actual: u8,
        /// The checksum byte the sensor actually sent.
        expected: u8,
    },
    /// A pulse failed to transition within 255 microseconds.
    Timeout,
}

/// The error of a failed read: one [`ErrorKind`] around the pin's own error
/// type.
#[derive(Debug, PartialEq, Eq)]
pub struct Error<I>(pub ErrorKind<I>);

impl<I> Error<I> {
    /// True exactly when the read aborted because a pulse never transitioned.
    pub fn is_timeout(&self) -> (r: bool)
        ensures
            r == (self.0 is Timeout),
    {
        matches!(self.0, ErrorKind::Timeout)
    }

    /// True exactly when the underlying pin reported a fault.
    pub fn is_io(&self) -> (r: bool)
        ensures
            r == (self.0 is Io),
    {
        matches!(self.0, ErrorKind::Io(_))
    }

    /// True exactly when the frame was sampled but failed validation.
    pub fn is_checksum(&self) -> (r: bool)
        ensures
            r == (self.0 is Checksum),
    {
        matches!(self.0, ErrorKind::Checksum { .. })
    }

    /// Extracts the pin's native error, if this error wraps one.
    pub fn into_io(self) -> (r: Option<I>)
        ensures
            self.0 matches ErrorKind::Io(e) ==> r == Some(e),
            !(self.0 is Io) ==> r is None,
    {
        match self.0 {
            ErrorKind::Io(io) => Some(io),
            _ => None,
        }
    }
}

} // verus!
