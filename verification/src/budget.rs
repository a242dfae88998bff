//! Integer budgets of the simulation: how many particles may be alive, how
//! many the Big Bang throws out, and how hard the grid size caps quality.

use vstd::prelude::*;

verus! {

/// `a + b`, held at `usize::MAX`.
pub open spec fn saturating_sum(a: usize, b: usize) -> usize {
    if a + b > usize::MAX {
        usize::MAX
    } else {
        (a + b) as usize
    }
}

/// Whether `count` more particles fit in the particle budget.
pub fn can_spawn(particle_count: usize, count: usize, budget: usize) -> (fits: bool)
    ensures
        fits == (saturating_sum(particle_count, count) <= budget),
        particle_count + count <= usize::MAX ==> (fits == (particle_count + count <= budget)),
        particle_count + count > usize::MAX ==> (fits == (budget == usize::MAX)),
{
    particle_count.saturating_add(count) <= budget
}

/// How strongly the grid size caps the adaptive render quality.
#[derive(Clone, Copy, Debug, PartialEq, Eq, Structural)]
pub enum GridTier {
    /// Up to 6 000 cells: quality is not capped.
    Compact,
    /// Over 6 000 cells.
    Large,
    /// Over 10 000 cells.
    Huge,
}

/// Number of cells of a `cols` × `rows` grid, held at `usize::MAX`.
pub open spec fn grid_cells(cols: usize, rows: usize) -> nat {
    if cols * rows > usize::MAX {
        usize::MAX as nat
    } else {
        (cols * rows) as nat
    }
}

/// The tier of a grid with `cells` cells.
pub open spec fn tier_of(cells: nat) -> GridTier {
    if cells > 10_000 {
        GridTier::Huge
    } else if cells > 6_000 {
        GridTier::Large
    } else {
        GridTier::Compact
    }
}

/// The quality tier of a `cols` × `rows` grid.
pub fn grid_quality_tier(cols: usize, rows: usize) -> (tier: GridTier)
    ensures
        tier == tier_of(grid_cells(cols, rows)),
        (tier == GridTier::Huge) == (cols * rows > 10_000),
        (tier == GridTier::Large) == (6_000 < cols * rows <= 10_000),
        (tier == GridTier::Compact) == (cols * rows <= 6_000),
{
    proof {
        lemma_tier_by_cells(cols, rows);
    }
    let cells = match cols.checked_mul(rows) {
        Some(c) => c,
        None => usize::MAX,
    };
    if cells > 10_000 {
        GridTier::Huge
    } else if cells > 6_000 {
        GridTier::Large
    } else {
        GridTier::Compact
    }
}

/// A grid's tier follows its cell count: more than 10 000 cells is huge,
/// more than 6 000 is large, anything smaller is compact.
pub proof fn lemma_tier_by_cells(cols: usize, rows: usize)
    ensures
        (tier_of(grid_cells(cols, rows)) == GridTier::Huge) == (cols * rows > 10_000),
        (tier_of(grid_cells(cols, rows)) == GridTier::Large) == (6_000 < cols * rows <= 10_000),
        (tier_of(grid_cells(cols, rows)) == GridTier::Compact) == (cols * rows <= 6_000),
{
}

/// The Big Bang throws out 120 particles plus 45 per density step, up to a
/// density of 7; from 8 on it throws out 470.
pub proof fn lemma_bang_particles_by_density(seed_density: u32)
    ensures
        seed_density <= 7 ==> bang_particles(seed_density) == 120 + 45 * seed_density,
        seed_density > 7 ==> bang_particles(seed_density) == 470,
{
}

/// Rank of a tier: the higher, the harder quality is capped.
pub open spec fn tier_rank(tier: GridTier) -> int {
    match tier {
        GridTier::Compact => 0,
        GridTier::Large => 1,
        GridTier::Huge => 2,
    }
}

/// A grid that is at least as wide and as tall as another never gets a
/// milder quality cap.
pub proof fn lemma_bigger_grid_never_milder(cols: usize, rows: usize, cols2: usize, rows2: usize)
    requires
        cols <= cols2,
        rows <= rows2,
    ensures
        tier_rank(tier_of(grid_cells(cols, rows))) <= tier_rank(tier_of(grid_cells(cols2, rows2))),
{
    assert(cols * rows <= cols2 * rows2) by (nonlinear_arith)
        requires
            cols <= cols2,
            rows <= rows2,
    ;
}

/// Particles the Big Bang throws out at a given seed density, before the
/// battery and quality scaling: 120 plus 45 per density step, the extra held
/// at 350.
pub open spec fn bang_particles(seed_density: u32) -> nat {
    120 + if seed_density * 45 < 350 {
        (seed_density * 45) as nat
    } else {
        350
    }
}

/// Particles the Big Bang throws out at a given seed density, before the
/// battery and quality scaling.
pub fn big_bang_base_particles(seed_density: u32) -> (n: usize)
    requires
        seed_density * 45 <= u32::MAX,
    ensures
        n == bang_particles(seed_density),
        seed_density <= 7 ==> n == 120 + 45 * seed_density,
        seed_density > 7 ==> n == 470,
{
    proof {
        lemma_bang_particles_by_density(seed_density);
    }
    let extra = seed_density * 45;
    let extra = if extra < 350 {
        extra
    } else {
        350
    };
    120 + extra as usize
}

} // verus!
