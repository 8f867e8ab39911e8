//! The engine's error taxonomy and the conversions into it.
use vstd::prelude::*;

verus! {

/// Faults reported by a flash driver. Each is fatal to the bank or operation in
/// progress, never to the boot attempt as a whole.
#[derive(Copy, Clone, Debug, PartialEq, Eq, Structural)]
pub enum DriverError {
    MemoryNotReachable,
    MisalignedAccess,
    MemoryIsLocked,
    InvalidAddress,
}

/// Why an image found in a bank was rejected.
#[derive(Copy, Clone, Debug, PartialEq, Eq, Structural)]
pub enum InvalidImageReason {
    BadMagic,
    SizeOutOfBounds,
    ChecksumMismatch,
    SignatureInvalid,
}

/// The engine's unified error type.
#[derive(Copy, Clone, Debug, PartialEq, Eq, Structural)]
pub enum Error {
    /// A hardware fault, converted from the driver that raised it.
    Driver(DriverError),
    /// An image failed validation.
    InvalidImage(InvalidImageReason),
    /// No bootable image anywhere.
    RecoveryRequired,
}

/// Diagnostic text for each fault of the internal flash.
pub open spec fn driver_message(e: DriverError) -> Seq<char> {
    match e {
        DriverError::MemoryNotReachable => "[MCU Flash] Memory not reachable"@,
        DriverError::MisalignedAccess => "[MCU Flash] Misaligned memory access"@,
        DriverError::MemoryIsLocked => "[MCU Flash] Memory is locked"@,
        DriverError::InvalidAddress => "[MCU Flash] Address is invalid"@,
    }
}

impl DriverError {
    /// Conversion of a flash driver fault into the engine's error type.
    pub fn into_error(self) -> (r: Error)
        ensures
            r == Error::Driver(self),
    {
        Error::Driver(self)
    }

    /// Diagnostic text for a fault of the internal flash.
    pub fn message(&self) -> (r: &'static str)
        ensures
            r@ == driver_message(*self),
    {
        match self {
            DriverError::MemoryNotReachable => "[MCU Flash] Memory not reachable",
            DriverError::MisalignedAccess => "[MCU Flash] Misaligned memory access",
            DriverError::MemoryIsLocked => "[MCU Flash] Memory is locked",
            DriverError::InvalidAddress => "[MCU Flash] Address is invalid",
        }
    }
}

impl InvalidImageReason {
    /// Conversion of a validation failure into the engine's error type.
    pub fn into_error(self) -> (r: Error)
        ensures
            r == Error::InvalidImage(self),
    {
        Error::InvalidImage(self)
    }
}

} // verus!
