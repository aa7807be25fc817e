//! The systems that the application runs on.
use vstd::prelude::*;

verus! {

/// The kind of operating system.
#[derive(Clone, Copy, Debug, PartialEq, Eq, Structural)]
pub enum Platform {
    Windows,
    MacOs,
    /// Any other Unix.
    Linux,
}

/// The kind of processor.
#[derive(Clone, Copy, Debug, PartialEq, Eq, Structural)]
pub enum Arch {
    X86,
    X86_64,
    Aarch64,
    Other,
}

} // verus!
