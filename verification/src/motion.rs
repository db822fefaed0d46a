//! Findings of the motion auditor, which scans recorded robot and ball
//! trajectories for physically implausible motion.
use vstd::prelude::*;

verus! {

/// A suspicious motion spotted by the motion auditor: a short kind tag
/// (e.g. `ball-random-force`) and a human-readable detail line.
#[derive(Debug, Clone)]
pub struct MotionFinding {
    pub kind: &'static str,
    pub detail: String,
}

impl MotionFinding {
    /// A finding of `kind` described by `detail`.
    pub fn new(kind: &'static str, detail: String) -> (res: MotionFinding)
        ensures
            res.kind@ == kind@,
            res.detail@ == detail@,
    {
        MotionFinding { kind, detail }
    }
}

} // verus!
