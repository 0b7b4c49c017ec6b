//! Post-fork merging strategy.
use vstd::prelude::*;

verus! {

/// Merging strategy for post-fork actions.
/// - NoMerge: do nothing (written `none`).
/// - Fetch: fetch pane branches back into the original repository as local branches.
/// - Octopus: fetch branches then attempt an octopus merge into a `merge/<sid>` branch.
#[derive(Copy, Clone, PartialEq, Eq, Structural, Debug, PartialOrd, Ord)]
pub enum MergingStrategy {
    NoMerge,
    Fetch,
    Octopus,
}

/// The name of a strategy as it is written on the command line and in metadata.
pub open spec fn strategy_name_spec(s: MergingStrategy) -> Seq<char> {
    match s {
        MergingStrategy::NoMerge => "none"@,
        MergingStrategy::Fetch => "fetch"@,
        MergingStrategy::Octopus => "octopus"@,
    }
}

/// The name of a strategy.
pub fn strategy_name(s: MergingStrategy) -> (r: &'static str)
    ensures
        r@ == strategy_name_spec(s),
{
    match s {
        MergingStrategy::NoMerge => "none",
        MergingStrategy::Fetch => "fetch",
        MergingStrategy::Octopus => "octopus",
    }
}

} // verus!
