use vstd::prelude::*;

verus! {

/// Why a snapshot could not be built from the mandatory sources.
#[derive(Clone, Copy, Debug, PartialEq, Eq, Structural)]
pub enum SnapshotError {
    /// A line of the OS release descriptor has no `=` separator.
    MalformedOsReleaseLine,
    /// The OS release descriptor names no pretty name.
    MissingOsPrettyName,
    /// A required memory-status line has no value after its key.
    MalformedMemInfoLine,
    /// The memory-status text names no total-memory line.
    MissingMemTotal,
    /// The memory-status text names no available-memory line.
    MissingMemAvailable,
    /// A memory value is not a plain decimal number in range.
    InvalidMemValue,
    /// The reported total memory is zero, so no usage share exists.
    ZeroMemTotal,
    /// More memory is reported available than exists in total.
    AvailableExceedsTotal,
    /// The package counts together exceed what a counter can hold.
    PackageCountOverflow,
}

} // verus!
