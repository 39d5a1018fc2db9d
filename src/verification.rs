use vstd::prelude::*;

verus! {

/// The life cycle of a verification request: it starts `Pending` and ends
/// `Verified` or `Failed`, the latter two set by an external engine.
#[derive(Debug, Clone, Copy, PartialEq, Eq, Structural)]
pub enum VerificationState {
    Pending,
    Verified,
    Failed,
}

impl VerificationState {
    pub fn is_terminal(&self) -> (r: bool)
        ensures
            r == (*self != VerificationState::Pending),
    {
        match self {
            VerificationState::Pending => false,
            _ => true,
        }
    }

    /// The state as it appears in a response body.
    pub fn as_text(&self) -> (r: &'static str)
        ensures
            *self == VerificationState::Pending ==> r@ == "pending"@,
            *self == VerificationState::Verified ==> r@ == "verified"@,
            *self == VerificationState::Failed ==> r@ == "failed"@,
    {
        match self {
            VerificationState::Pending => "pending",
            VerificationState::Verified => "verified",
            VerificationState::Failed => "failed",
        }
    }
}

/// Accepts a verification request without waiting on the engine: the
/// acknowledged state is always `Pending`.
pub fn accept_verification() -> (r: VerificationState)
    ensures
        r == VerificationState::Pending,
{
    VerificationState::Pending
}

} // verus!
