//! The state of a branch's continuous-integration run.

use vstd::prelude::*;

verus! {

/// What the continuous-integration service says of a branch.
#[derive(Debug, Clone, Copy, PartialEq, Eq, Structural)]
pub enum PrStatus {
    Passed,
    Running,
    Failed,
    Conflicts,
    NoCi,
}

} // verus!
