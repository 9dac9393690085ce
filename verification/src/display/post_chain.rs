//! The five post-processing stages in their explicit, frozen order.

use vstd::prelude::*;

verus! {

/// The five stages, in the frozen processing order.
#[derive(Debug, Clone, Copy, PartialEq, Eq, Structural)]
pub enum Stage {
    Exposure,
    Bloom,
    Tonemap,
    ColorGrading,
    OutputTransform,
}

/// Position of a stage in the frozen order.
pub open spec fn stage_index(s: Stage) -> int {
    match s {
        Stage::Exposure => 0,
        Stage::Bloom => 1,
        Stage::Tonemap => 2,
        Stage::ColorGrading => 3,
        Stage::OutputTransform => 4,
    }
}

/// Name of a stage.
pub open spec fn stage_name(s: Stage) -> Seq<char> {
    match s {
        Stage::Exposure => "exposure"@,
        Stage::Bloom => "bloom"@,
        Stage::Tonemap => "tonemap"@,
        Stage::ColorGrading => "color_grading"@,
        Stage::OutputTransform => "output_transform"@,
    }
}

impl Stage {
    /// The frozen order.
    pub const ORDER: [Stage; 5] = [
        Stage::Exposure,
        Stage::Bloom,
        Stage::Tonemap,
        Stage::ColorGrading,
        Stage::OutputTransform,
    ];

    /// Stage names, indexed by position.
    pub const NAMES: [&'static str; 5] = [
        "exposure",
        "bloom",
        "tonemap",
        "color_grading",
        "output_transform",
    ];

    pub fn name(&self) -> (r: &'static str)
        ensures
            r@ == stage_name(*self),
    {
        match self {
            Stage::Exposure => "exposure",
            Stage::Bloom => "bloom",
            Stage::Tonemap => "tonemap",
            Stage::ColorGrading => "color_grading",
            Stage::OutputTransform => "output_transform",
        }
    }

    pub fn index(&self) -> (r: usize)
        ensures
            r == stage_index(*self),
    {
        match self {
            Stage::Exposure => 0,
            Stage::Bloom => 1,
            Stage::Tonemap => 2,
            Stage::ColorGrading => 3,
            Stage::OutputTransform => 4,
        }
    }
}

/// The frozen order lists every stage once, at its index, and the name
/// table agrees with [`Stage::name`].
pub proof fn law_stage_order_consistent(s: Stage)
    ensures
        0 <= stage_index(s) < 5,
        Stage::ORDER@[stage_index(s)] == s,
        Stage::NAMES@[stage_index(s)]@ == stage_name(s),
{
}


/// The frozen order and names of the stages, stated with their literals.
pub proof fn law_stage_literals()
    ensures
        stage_name(Stage::Exposure) == "exposure"@ && stage_index(Stage::Exposure) == 0,
        stage_name(Stage::Bloom) == "bloom"@ && stage_index(Stage::Bloom) == 1,
        stage_name(Stage::Tonemap) == "tonemap"@ && stage_index(Stage::Tonemap) == 2,
        stage_name(Stage::ColorGrading) == "color_grading"@ && stage_index(Stage::ColorGrading) == 3,
        stage_name(Stage::OutputTransform) == "output_transform"@ && stage_index(
            Stage::OutputTransform,
        ) == 4,
{
}

} // verus!
