use vstd::prelude::*;

verus! {

/// Return codes of the middleware, as one flat enumeration.
///
/// `Timeout` is the one recoverable code: the spinning loops absorb it. The
/// three `...TakeFailed` codes are what a readiness cycle reports when the
/// wait set woke up spuriously; they are handed to the caller, who may ignore
/// them. Every other code is fatal.
#[derive(Clone, Copy, Debug, PartialEq, Eq, Structural)]
pub enum RclReturnCode {
    Error,
    Timeout,
    Unsupported,
    BadAlloc,
    InvalidArgument,
    AlreadyInit,
    NotInit,
    AlreadyShutdown,
    NodeInvalid,
    SubscriptionInvalid,
    SubscriptionTakeFailed,
    ClientInvalid,
    ClientTakeFailed,
    ServiceInvalid,
    ServiceTakeFailed,
    WaitSetInvalid,
    WaitSetEmpty,
    WaitSetFull,
}

/// How a caller is meant to treat a return code.
#[derive(Clone, Copy, Debug, PartialEq, Eq, Structural)]
pub enum Severity {
    /// A normal signal to try again.
    Recoverable,
    /// Expected after a spurious wake-up; safe to ignore.
    SpuriousWakeup,
    /// Ends a spinning loop.
    Fatal,
}

impl RclReturnCode {
    pub open spec fn is_timeout(self) -> bool {
        self == RclReturnCode::Timeout
    }

    pub open spec fn is_take_failed(self) -> bool {
        self == RclReturnCode::SubscriptionTakeFailed || self == RclReturnCode::ClientTakeFailed
            || self == RclReturnCode::ServiceTakeFailed
    }

    pub open spec fn spec_severity(self) -> Severity {
        if self.is_timeout() {
            Severity::Recoverable
        } else if self.is_take_failed() {
            Severity::SpuriousWakeup
        } else {
            Severity::Fatal
        }
    }

    /// The class of this code: `Timeout` is recoverable, the three take
    /// failures are spurious wake-ups, all others are fatal.
    pub fn severity(self) -> (s: Severity)
        ensures
            s == self.spec_severity(),
    {
        match self {
            RclReturnCode::Timeout => Severity::Recoverable,
            RclReturnCode::SubscriptionTakeFailed
            | RclReturnCode::ClientTakeFailed
            | RclReturnCode::ServiceTakeFailed => Severity::SpuriousWakeup,
            _ => Severity::Fatal,
        }
    }
}

} // verus!
