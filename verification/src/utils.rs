//! Types for the window-enumeration collaborators.
//!
//! Enumerating top-level windows and resolving a title to a handle are
//! platform services that sit outside the capture pipeline; the library
//! only defines the value types they exchange, so captures and listings
//! share one vocabulary.

use vstd::prelude::*;

verus! {

/// One visible top-level window: its opaque platform handle and its title.
#[derive(Debug)]
pub struct HwndName {
    pub hwnd: isize,
    pub window_name: String,
}

/// Failure of an exact-title window lookup.
#[derive(Clone, Copy, PartialEq, Eq, Structural, Debug)]
pub enum FWError {
    /// No window carries the title, or the platform query faulted.
    NotFoundOrFault,
}

/// Failure of the window enumeration.
#[derive(Clone, Copy, PartialEq, Eq, Structural, Debug)]
pub enum WLError {
    /// The platform refused to enumerate the top-level windows.
    EnumWindowsError,
}

} // verus!
