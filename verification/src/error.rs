//! The error vocabulary shared by every operation of the crate.

use vstd::prelude::*;

verus! {

/// Why a mouse operation failed.
///
/// Every fallible operation reports its outcome directly to the caller;
/// nothing in this crate retries, logs-and-swallows, or aborts the process.
#[derive(Debug, Clone, Copy, PartialEq, Eq, Structural)]
pub enum Error {
    /// The requested capability does not exist on this backend, e.g. a
    /// position query on a platform whose display protocol forbids it.
    /// This is an expected outcome callers must branch on, not a defect.
    NotImplemented,
    /// The operation requires a privilege the process does not hold,
    /// chiefly installing a system-wide hook.
    PermissionDenied,
    /// Removal was requested for a callback id that is not currently
    /// registered (never issued, already removed, or cleared in bulk).
    UnhookFailed,
    /// The platform refused or failed the injection call that should have
    /// moved the pointer, pressed a button, or scrolled the wheel.
    InjectionFailed,
    /// The registry already holds the maximum number of callbacks, so no
    /// fresh id could be allocated. A hard capacity error.
    CallbackLimitReached,
}

impl Error {
    /// A short human-readable description of the error.
    pub fn describe(&self) -> (r: &'static str)
        ensures
            r@.len() > 0,
    {
        proof {
            reveal_strlit("this functionality is not implemented yet");
            reveal_strlit("this operation requires more privileges");
            reveal_strlit("could not unhook the given callback id");
            reveal_strlit("the platform refused the injected event");
            reveal_strlit("no callback id is left to allocate");
        }
        match self {
            Error::NotImplemented => "this functionality is not implemented yet",
            Error::PermissionDenied => "this operation requires more privileges",
            Error::UnhookFailed => "could not unhook the given callback id",
            Error::InjectionFailed => "the platform refused the injected event",
            Error::CallbackLimitReached => "no callback id is left to allocate",
        }
    }
}

} // verus!
