//! Team controllers that need no AI: one that never commands anything, and
//! one that forwards to a caller-supplied function.
use vstd::prelude::*;

verus! {

/// A controller that sends no robot commands.
#[derive(Debug, Clone, Copy, PartialEq, Eq)]
pub struct NoopController;

/// A controller whose commands come from a function of the world index,
/// the team and the world state.
pub struct FnTeamController<F> {
    pub f: F,
}

impl<F> FnTeamController<F> {
    /// A controller driven by `f`.
    pub fn new(f: F) -> (res: Self)
        ensures
            res.f == f,
    {
        FnTeamController { f }
    }
}

} // verus!
