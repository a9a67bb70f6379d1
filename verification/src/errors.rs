//! The error taxonomy of the window core.
//!
//! Registration and allocation failures are resource conditions reported by
//! the runtime boundary and are recoverable by caller policy. Range and
//! count mismatches in transfers are local programming errors and are never
//! silently corrected. Protocol misuse is reported as a distinct
//! `SynchronizationError` and never conflated with a transfer error. Loss
//! of the underlying transport is fatal to the window: every later
//! operation on it is refused with `TransportLost` until the window is
//! released.

use vstd::prelude::*;

verus! {

/// Every failure a window operation can report, surfaced synchronously at
/// the call that triggered it. None is swallowed or retried by the core.
#[derive(Clone, Copy, Debug, PartialEq, Eq, Structural)]
pub enum RmaError {
    /// The runtime rejected the memory region handed to `attach`: the
    /// buffer does not match the declared element count.
    RegistrationError,
    /// The runtime could not satisfy an `allocate` request. Reserved for
    /// the runtime boundary's resource limits; the in-crate model of the
    /// runtime never exhausts.
    AllocationError,
    /// A transfer named an origin element count different from its target
    /// element count. Never silently truncated or padded.
    CountMismatch,
    /// A transfer range reached past the exposed length of the target
    /// region or past the end of the local buffer. Never silently clipped.
    OutOfRange,
    /// Synchronization protocol misuse: mixing epoch protocols, an
    /// unmatched `complete` or `wait`, a double `post` or double lock, an
    /// `unlock` without a lock, or a transfer issued outside any open
    /// epoch. Fatal to the current epoch; the window stays usable.
    SynchronizationError,
    /// The transport under the window failed. The window refuses all
    /// further operations and must be released.
    TransportLost,
}

} // verus!
