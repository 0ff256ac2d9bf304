//! The closed error taxonomy of the environment layer.
//!
//! Every failure of the layer is one of these conditions. The process-level
//! policy on any of them is "abort with a diagnostic", but they are surfaced
//! as explicit values so that callers and tests can tell them apart.

use vstd::prelude::*;

verus! {

/// A failure condition of the hardware-access environment.
#[derive(Clone, Copy, Debug, PartialEq, Eq, Structural)]
pub enum EnvError {
    /// An allocation would push cumulative arena usage to or past capacity.
    ArenaExhausted,
    /// A mapping request whose byte length is not a multiple of its element size.
    MappingMisaligned,
    /// The raw-memory device could not be mapped at the requested range.
    MappingFailed,
    /// The page-table metadata entry for the page has the present bit unset.
    PageNotPresent,
    /// The page-table metadata entry carries a zero page-frame number.
    PageNotMapped,
    /// The operating system refused access to a hardware resource.
    PermissionDenied,
}

impl EnvError {
    /// A short diagnostic name for the condition.
    pub fn describe(&self) -> (r: &'static str)
        ensures
            r@ =~= match *self {
                EnvError::ArenaExhausted => "arena exhausted"@,
                EnvError::MappingMisaligned => "mapping misaligned"@,
                EnvError::MappingFailed => "mapping failed"@,
                EnvError::PageNotPresent => "page not present"@,
                EnvError::PageNotMapped => "page not mapped"@,
                EnvError::PermissionDenied => "permission denied"@,
            },
    {
        match *self {
            EnvError::ArenaExhausted => "arena exhausted",
            EnvError::MappingMisaligned => "mapping misaligned",
            EnvError::MappingFailed => "mapping failed",
            EnvError::PageNotPresent => "page not present",
            EnvError::PageNotMapped => "page not mapped",
            EnvError::PermissionDenied => "permission denied",
        }
    }
}

} // verus!
