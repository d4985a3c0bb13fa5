//! Two-path routing: the optimizer paths a sequence can be sent to.

use vstd::prelude::*;

verus! {

/// Optimizer path for a sequence.
#[derive(Debug, Clone, Copy, PartialEq, Eq, Structural)]
pub enum OptimizerPath {
    /// Conservative opaque-delta reconstruction.
    PathA,
    /// General sparse/transparent optimization.
    PathB,
}

impl OptimizerPath {
    /// Human-readable name for the path.
    pub open spec fn name_spec(&self) -> Seq<char> {
        match self {
            OptimizerPath::PathA => "Path A (Conservative Opaque-Delta)"@,
            OptimizerPath::PathB => "Path B (General Sparse/Transparent)"@,
        }
    }

    /// Human-readable name for the path.
    pub fn name(&self) -> (r: &'static str)
        ensures
            r@ == self.name_spec(),
    {
        match self {
            OptimizerPath::PathA => "Path A (Conservative Opaque-Delta)",
            OptimizerPath::PathB => "Path B (General Sparse/Transparent)",
        }
    }
}

/// The outcomes of the four criteria of the conservative path.
#[derive(Debug, Clone, Copy)]
pub struct PathCriteria {
    /// Some frame uses a transparent graphics control extension.
    pub has_transparent_gce: bool,
    /// At least 90% of the frames use keep or unspecified disposal.
    pub keep_none_at_least_90: bool,
    /// The sequence has a global palette.
    pub has_global_palette: bool,
    /// Palette stability is at least 0.8.
    pub stability_at_least_80: bool,
    /// The median changed-area ratio is at most 0.6.
    pub changed_area_at_most_60: bool,
}

/// Route a sequence: the conservative opaque-delta path when every criterion
/// holds (no transparent GCE, mostly keep/unspecified disposal, a global
/// palette or a stable one, small changed areas), the general path otherwise.
pub fn decide_path(criteria: PathCriteria) -> (r: OptimizerPath)
    ensures
        (r == OptimizerPath::PathA) == (!criteria.has_transparent_gce && criteria.keep_none_at_least_90
            && (criteria.has_global_palette || criteria.stability_at_least_80)
            && criteria.changed_area_at_most_60),
{
    let mut path_a_eligible = true;
    if criteria.has_transparent_gce {
        path_a_eligible = false;
    }
    if !criteria.keep_none_at_least_90 {
        path_a_eligible = false;
    }
    if !criteria.has_global_palette && !criteria.stability_at_least_80 {
        path_a_eligible = false;
    }
    if !criteria.changed_area_at_most_60 {
        path_a_eligible = false;
    }
    if path_a_eligible {
        OptimizerPath::PathA
    } else {
        OptimizerPath::PathB
    }
}

} // verus!
