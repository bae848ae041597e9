//! The ways in which a capture cycle can end without a frame.

use vstd::prelude::*;

verus! {

/// Why a capture cycle produced no frame. Every kind is final for the cycle
/// it occurs in: nothing in this crate retries after one of them.
#[derive(Clone, Copy, Debug, PartialEq, Eq, Structural)]
pub enum CaptureError {
    /// No shared-memory region of the required size could be obtained.
    AllocationError,
    /// The compositor lacks a capability the capture relies on.
    ProtocolError,
    /// The advertised pixel layout is not one the crate can read.
    UnsupportedFormat,
    /// The compositor reported that the copy failed.
    CaptureFailed,
}

} // verus!
