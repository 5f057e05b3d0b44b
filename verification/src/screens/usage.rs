//! Usage screen state: which usage tab is showing and what the screen can
//! request.

use vstd::prelude::*;

verus! {

/// Which tab of the usage screen is showing.
#[derive(Clone, Copy, PartialEq, Eq, Structural, Debug)]
pub enum UsageSub {
    Summary,
    ByModel,
    ByAgent,
}

/// What the usage screen asks its driver to do next.
#[derive(Clone, Copy, PartialEq, Eq, Structural, Debug)]
pub enum UsageAction {
    Continue,
    Refresh,
}

} // verus!
