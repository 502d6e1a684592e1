//! The faults that the core reports.

use vstd::prelude::*;

verus! {

/// A constraint that a configuration or a command violates.
#[derive(Clone, Copy, Debug, PartialEq, Eq, Structural)]
pub enum ConfigurationError {
    /// A pipeline or a split was given no unit.
    NoUnits,
    /// A delay length lies outside the bounds of its line.
    DelayBounds,
    /// A buffer of the requested duration cannot be addressed on this machine.
    BufferTooLarge,
}

/// A transport that could not take or give every sample asked for. The call
/// has still done what it could.
#[derive(Clone, Copy, Debug, PartialEq, Eq, Structural)]
pub enum TransportFault {
    /// `skipped` samples did not fit and were dropped.
    Overrun { skipped: usize },
    /// `missed` samples had not been produced yet and were replaced by silence.
    Underrun { missed: usize },
}

/// Why a unit or an effect could not be made, or why a call on it ended
/// early.
#[derive(Clone, Copy, Debug, PartialEq, Eq, Structural)]
pub enum Error {
    Configuration(ConfigurationError),
    /// The other end of a control channel is gone.
    Channel,
}

/// What a write of `requested` samples reports when `wrote` of them fitted.
pub open spec fn overrun_of(requested: int, wrote: int) -> Result<(), TransportFault> {
    if wrote < requested {
        Err(TransportFault::Overrun { skipped: (requested - wrote) as usize })
    } else {
        Ok(())
    }
}

/// What a read of `requested` samples reports when `read` of them were there.
pub open spec fn underrun_of(requested: int, read: int) -> Result<(), TransportFault> {
    if read < requested {
        Err(TransportFault::Underrun { missed: (requested - read) as usize })
    } else {
        Ok(())
    }
}

/// Classifies the outcome of a write: an overrun by exactly the samples that
/// did not fit, success when all did.
pub fn overrun(requested: usize, wrote: usize) -> (report: Result<(), TransportFault>)
    requires
        wrote <= requested,
    ensures
        report == overrun_of(requested as int, wrote as int),
{
    if wrote < requested {
        Err(TransportFault::Overrun { skipped: requested - wrote })
    } else {
        Ok(())
    }
}

/// Classifies the outcome of a read: an underrun by exactly the samples that
/// were missing, success when none was.
pub fn underrun(requested: usize, read: usize) -> (report: Result<(), TransportFault>)
    requires
        read <= requested,
    ensures
        report == underrun_of(requested as int, read as int),
{
    if read < requested {
        Err(TransportFault::Underrun { missed: requested - read })
    } else {
        Ok(())
    }
}

} // verus!
