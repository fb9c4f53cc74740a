use vstd::prelude::*;

verus! {

/// Failure taxonomy shared by all bus and device operations.
///
/// Every operation that can fail returns one of these variants; which variant
/// comes on which input is pinned down by each operation's contract.
#[derive(Clone, Copy, Debug, PartialEq, Eq, Structural)]
pub enum BusError {
    /// No device mapping resolves the address (a decode miss).
    AddressNotMapped,
    /// The address or range lies outside the device's extent.
    AddressOutOfBounds,
    /// A register-level request has a malformed shape.
    InvalidAddress,
    /// A pipe register was read while its receive queue was empty.
    NoData,
    /// Shared state was left behind by a holder that failed; never produced
    /// by the verified library itself, only by lock-holding wrappers.
    Poisoned,
    /// No mapping with the given base address exists.
    DeviceNotFound,
    /// The device does not implement the requested operation.
    Unsupported,
}

} // verus!
