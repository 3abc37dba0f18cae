use vstd::prelude::*;

verus! {

/// The process's open-file-descriptor limits.
#[derive(Clone, Copy, Debug, PartialEq, Eq, Structural)]
pub struct FileLimits {
    /// The limit in force (soft limit).
    pub soft: u64,
    /// The ceiling the soft limit may be raised to (hard limit).
    pub hard: u64,
}

/// The limits to install at startup: the soft limit raised to the hard one.
/// Limits that are already equal come back unchanged.
pub fn raised(current: FileLimits) -> (r: FileLimits)
    ensures
        r.soft == current.hard,
        r.hard == current.hard,
        current.soft == current.hard ==> r == current,
{
    FileLimits { soft: current.hard, hard: current.hard }
}

} // verus!
