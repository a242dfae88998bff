//! What becomes of two gravity seeds that meet during accretion.

use vstd::prelude::*;
use crate::grid::Rgb;
use crate::color::{blend, blend_colors};

verus! {

/// The kind of event two merging seeds produce.
#[derive(Clone, Copy, Debug, PartialEq, Eq, Structural)]
pub enum MergeKind {
    /// Two stars join into a bigger star.
    StarMerge,
    /// Two stars join past the collapse mass and form a black hole.
    StellarCollapse,
    /// A black hole swallows a star.
    StarSwallowed,
    /// Two black holes merge and send out a gravitational wave.
    BlackHoleMerger,
}

/// Color of a newly formed or fed black hole.
pub open spec fn black_hole_color() -> Rgb {
    (130, 50, 240)
}

/// The kind of event, from whether each seed was a black hole and whether the
/// joined mass reaches the collapse mass.
pub open spec fn merge_kind(first_is_black_hole: bool, second_is_black_hole: bool, reaches_collapse_mass: bool) -> MergeKind {
    if first_is_black_hole && second_is_black_hole {
        MergeKind::BlackHoleMerger
    } else if first_is_black_hole || second_is_black_hole {
        MergeKind::StarSwallowed
    } else if reaches_collapse_mass {
        MergeKind::StellarCollapse
    } else {
        MergeKind::StarMerge
    }
}

/// The surviving seed's traits after a merge.
#[derive(Clone, Copy, Debug)]
pub struct MergeOutcome {
    pub kind: MergeKind,
    /// The survivor is a black hole.
    pub is_black_hole: bool,
    /// The survivor's color.
    pub color: Rgb,
    /// The survivor's birth clock starts again (its disk fades in anew).
    pub restarts_birth: bool,
    /// A gravitational wave starts at the merge point.
    pub emits_grav_wave: bool,
    /// Blend of the two colors, which tints the debris.
    pub debris_color: Rgb,
}

/// Merges the traits of two seeds; `first` survives and takes the outcome.
pub fn merge_seeds(
    first_is_black_hole: bool,
    first_color: Rgb,
    second_is_black_hole: bool,
    second_color: Rgb,
    reaches_collapse_mass: bool,
) -> (out: MergeOutcome)
    ensures
        out.kind == merge_kind(first_is_black_hole, second_is_black_hole, reaches_collapse_mass),
        out.is_black_hole == (out.kind != MergeKind::StarMerge),
        out.color == (if out.kind == MergeKind::StarMerge {
            blend(first_color, second_color)
        } else {
            black_hole_color()
        }),
        out.restarts_birth == (out.kind != MergeKind::StarMerge),
        out.emits_grav_wave == (out.kind == MergeKind::BlackHoleMerger),
        out.debris_color == blend(first_color, second_color),
        (first_is_black_hole && second_is_black_hole) ==> out.kind == MergeKind::BlackHoleMerger,
        (first_is_black_hole != second_is_black_hole) ==> out.kind == MergeKind::StarSwallowed,
        (!first_is_black_hole && !second_is_black_hole) ==> out.kind == (if reaches_collapse_mass {
            MergeKind::StellarCollapse
        } else {
            MergeKind::StarMerge
        }),
        out.is_black_hole == (first_is_black_hole || second_is_black_hole || reaches_collapse_mass),
        !out.is_black_hole ==> out.color == out.debris_color,
        out.is_black_hole ==> out.color == (130u8, 50u8, 240u8),
{
    let kind = if first_is_black_hole && second_is_black_hole {
        MergeKind::BlackHoleMerger
    } else if first_is_black_hole || second_is_black_hole {
        MergeKind::StarSwallowed
    } else if reaches_collapse_mass {
        MergeKind::StellarCollapse
    } else {
        MergeKind::StarMerge
    };
    let blended = blend_colors(first_color, second_color);
    let becomes_hole = match kind {
        MergeKind::StarMerge => false,
        _ => true,
    };
    MergeOutcome {
        kind,
        is_black_hole: becomes_hole,
        color: if becomes_hole { (130, 50, 240) } else { blended },
        restarts_birth: becomes_hole,
        emits_grav_wave: match kind {
            MergeKind::BlackHoleMerger => true,
            _ => false,
        },
        debris_color: blended,
    }
}

/// What two merging seeds become, by what they were: two black holes merge
/// (and only they do); a black hole meeting a star swallows it, whatever the
/// joined mass; two stars collapse into a black hole exactly when the joined
/// mass reaches the collapse mass, and otherwise form a bigger star. The
/// result is a black hole exactly when a seed was one or the mass collapses,
/// and it does not depend on which seed comes first.
pub proof fn lemma_merge_kind_by_inputs(first_is_black_hole: bool, second_is_black_hole: bool, reaches_collapse_mass: bool)
    ensures
        (first_is_black_hole && second_is_black_hole) ==> merge_kind(
            first_is_black_hole,
            second_is_black_hole,
            reaches_collapse_mass,
        ) == MergeKind::BlackHoleMerger,
        (first_is_black_hole != second_is_black_hole) ==> merge_kind(
            first_is_black_hole,
            second_is_black_hole,
            reaches_collapse_mass,
        ) == MergeKind::StarSwallowed,
        (merge_kind(first_is_black_hole, second_is_black_hole, reaches_collapse_mass)
            == MergeKind::StellarCollapse) == (!first_is_black_hole && !second_is_black_hole
            && reaches_collapse_mass),
        (merge_kind(first_is_black_hole, second_is_black_hole, reaches_collapse_mass)
            == MergeKind::StarMerge) == (!first_is_black_hole && !second_is_black_hole
            && !reaches_collapse_mass),
        (merge_kind(first_is_black_hole, second_is_black_hole, reaches_collapse_mass)
            != MergeKind::StarMerge) == (first_is_black_hole || second_is_black_hole
            || reaches_collapse_mass),
        (merge_kind(first_is_black_hole, second_is_black_hole, reaches_collapse_mass)
            == MergeKind::BlackHoleMerger) == (first_is_black_hole && second_is_black_hole),
        merge_kind(first_is_black_hole, second_is_black_hole, reaches_collapse_mass)
            == merge_kind(second_is_black_hole, first_is_black_hole, reaches_collapse_mass),
{
}

/// A merge leaves a black hole exactly when one of the seeds was a black hole
/// or the joined mass reaches the collapse mass, and it sends out a
/// gravitational wave exactly when both seeds were black holes.
pub proof fn lemma_black_hole_outcome(first_is_black_hole: bool, second_is_black_hole: bool, reaches_collapse_mass: bool)
    ensures
        (merge_kind(first_is_black_hole, second_is_black_hole, reaches_collapse_mass)
            != MergeKind::StarMerge) == (first_is_black_hole || second_is_black_hole
            || reaches_collapse_mass),
        (merge_kind(first_is_black_hole, second_is_black_hole, reaches_collapse_mass)
            == MergeKind::BlackHoleMerger) == (first_is_black_hole && second_is_black_hole),
        merge_kind(first_is_black_hole, second_is_black_hole, reaches_collapse_mass)
            == merge_kind(second_is_black_hole, first_is_black_hole, reaches_collapse_mass),
{
    lemma_merge_kind_by_inputs(first_is_black_hole, second_is_black_hole, reaches_collapse_mass);
}

} // verus!
