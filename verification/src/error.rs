use vstd::prelude::*;

use crate::ffi::ffi_ref::flag::FfiRefFlag;
use crate::value::ValueKind;

verus! {

/// Why a dynamic value could not be turned into a native one.
#[derive(Clone, Copy, Debug, PartialEq, Eq, Structural)]
pub enum ConversionFailure {
    /// The native type takes no value of this kind.
    UnsupportedKind(ValueKind),
    /// The text is not a decimal integer that the native type can hold.
    Parse,
}

/// Everything that an operation of this crate can fail with. Each failure is
/// handed back to the caller; none ends the process.
#[derive(Clone, Debug, PartialEq, Eq)]
pub enum FfiError {
    /// A dynamic value does not convert to the native type.
    ConversionError(ConversionFailure),
    /// `size` bytes at `offset` do not lie inside the window.
    BoundsError { offset: isize, size: usize },
    /// The reference lacks the flag that the operation needs.
    CapabilityError { missing: FfiRefFlag },
    /// The descriptor `name` at `position` of a signature names no native
    /// type; the return type stands at the position after the last argument.
    TypeError { position: usize, name: String },
    /// The library `name` could not be opened; `message` is what the loader
    /// said of it.
    LoadError { name: String, message: String },
    /// The symbol `name` could not be had from the library; `message` is
    /// what the loader said of it.
    SymbolError { name: String, message: String },
    /// No region of `size` bytes could be had.
    AllocationError { size: usize },
    /// The native call itself failed.
    CallError,
}

} // verus!
