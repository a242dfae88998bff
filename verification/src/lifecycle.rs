//! The universe lifecycle:
//! Darkness → Big Bang → Expansion → Accretion → Singularity → Collapse → Darkness.

use vstd::prelude::*;

verus! {

/// State of the universe.
#[derive(Clone, Copy, Debug, PartialEq, Eq, Structural)]
pub enum UniverseState {
    Darkness,
    BigBang,
    Expansion,
    Accretion,
    Singularity,
    Collapse,
}

/// The phase that follows `state` in the lifecycle.
pub open spec fn successor(state: UniverseState) -> UniverseState {
    match state {
        UniverseState::Darkness => UniverseState::BigBang,
        UniverseState::BigBang => UniverseState::Expansion,
        UniverseState::Expansion => UniverseState::Accretion,
        UniverseState::Accretion => UniverseState::Singularity,
        UniverseState::Singularity => UniverseState::Collapse,
        UniverseState::Collapse => UniverseState::Darkness,
    }
}

/// What one frame observed about the running phase.
///
/// The timing and energy thresholds are measured by the caller on the
/// simulation state; the lifecycle decides on these observations.
#[derive(Clone, Copy, Debug)]
pub struct PhaseSignals {
    /// Darkness has been held for its dwell time (2.4 s plus the host bias).
    pub darkness_held: bool,
    /// The Big Bang has run for 1.85 s.
    pub bang_done: bool,
    /// Expansion has calmed (low particle energy and the caption reformed) or ran 10 s.
    pub expansion_settled: bool,
    /// Number of active gravity seeds.
    pub active_seeds: usize,
    /// The singularity has run for 6.5 s.
    pub singularity_done: bool,
    /// The collapse has run for 5 s.
    pub collapse_timed_out: bool,
    /// Number of live particles.
    pub particle_count: usize,
}

/// Whether the running phase is over, given the frame's observations.
pub open spec fn phase_complete(state: UniverseState, signals: PhaseSignals) -> bool {
    match state {
        UniverseState::Darkness => signals.darkness_held,
        UniverseState::BigBang => signals.bang_done,
        UniverseState::Expansion => signals.expansion_settled,
        UniverseState::Accretion => signals.active_seeds <= 1,
        UniverseState::Singularity => signals.singularity_done,
        UniverseState::Collapse => signals.particle_count == 0 || signals.collapse_timed_out,
    }
}

/// The phase to enter this frame, if the running one is over.
pub fn next_state(state: UniverseState, signals: &PhaseSignals) -> (next: Option<UniverseState>)
    ensures
        next == (if phase_complete(state, *signals) {
            Some(successor(state))
        } else {
            None
        }),
        state == UniverseState::Darkness ==> next == (if signals.darkness_held {
            Some(UniverseState::BigBang)
        } else {
            None
        }),
        state == UniverseState::BigBang ==> next == (if signals.bang_done {
            Some(UniverseState::Expansion)
        } else {
            None
        }),
        state == UniverseState::Expansion ==> next == (if signals.expansion_settled {
            Some(UniverseState::Accretion)
        } else {
            None
        }),
        state == UniverseState::Accretion ==> next == (if signals.active_seeds <= 1 {
            Some(UniverseState::Singularity)
        } else {
            None
        }),
        state == UniverseState::Singularity ==> next == (if signals.singularity_done {
            Some(UniverseState::Collapse)
        } else {
            None
        }),
        state == UniverseState::Collapse ==> next == (if signals.particle_count == 0
            || signals.collapse_timed_out {
            Some(UniverseState::Darkness)
        } else {
            None
        }),
{
    match state {
        UniverseState::Darkness => {
            if signals.darkness_held {
                Some(UniverseState::BigBang)
            } else {
                None
            }
        },
        UniverseState::BigBang => {
            if signals.bang_done {
                Some(UniverseState::Expansion)
            } else {
                None
            }
        },
        UniverseState::Expansion => {
            if signals.expansion_settled {
                Some(UniverseState::Accretion)
            } else {
                None
            }
        },
        UniverseState::Accretion => {
            if signals.active_seeds <= 1 {
                Some(UniverseState::Singularity)
            } else {
                None
            }
        },
        UniverseState::Singularity => {
            if signals.singularity_done {
                Some(UniverseState::Collapse)
            } else {
                None
            }
        },
        UniverseState::Collapse => {
            if signals.particle_count == 0 || signals.collapse_timed_out {
                Some(UniverseState::Darkness)
            } else {
                None
            }
        },
    }
}

/// The phase reached from `state` after `steps` phase changes.
pub open spec fn advance(state: UniverseState, steps: nat) -> UniverseState
    decreases steps,
{
    if steps == 0 {
        state
    } else {
        successor(advance(state, (steps - 1) as nat))
    }
}

/// The lifecycle is one cycle through all six phases: from any phase, six
/// phase changes lead back to it, and fewer never do.
pub proof fn lemma_lifecycle_is_a_six_cycle(state: UniverseState)
    ensures
        advance(state, 6) == state,
        forall|k: nat| 0 < k < 6 ==> advance(state, k) != state,
{
    reveal_with_fuel(advance, 7);
    assert forall|k: nat| 0 < k < 6 implies advance(state, k) != state by {
        assert(k == 1 || k == 2 || k == 3 || k == 4 || k == 5);
    }
}

/// Starting in darkness, the six phases are visited in the documented order.
pub proof fn lemma_lifecycle_order()
    ensures
        advance(UniverseState::Darkness, 1) == UniverseState::BigBang,
        advance(UniverseState::Darkness, 2) == UniverseState::Expansion,
        advance(UniverseState::Darkness, 3) == UniverseState::Accretion,
        advance(UniverseState::Darkness, 4) == UniverseState::Singularity,
        advance(UniverseState::Darkness, 5) == UniverseState::Collapse,
        advance(UniverseState::Darkness, 6) == UniverseState::Darkness,
{
    reveal_with_fuel(advance, 7);
}

/// Each phase ends on its own observation and on nothing else: Darkness on
/// its dwell, the Big Bang on its duration, Expansion on settling, Accretion
/// once at most one seed is active, the Singularity on its duration, and the
/// Collapse once no particle is left or its time is up. Two frames that agree
/// on a phase's own observation decide that phase alike.
pub proof fn lemma_each_phase_reads_its_own_signal(a: PhaseSignals, b: PhaseSignals)
    ensures
        phase_complete(UniverseState::Darkness, a) == a.darkness_held,
        phase_complete(UniverseState::BigBang, a) == a.bang_done,
        phase_complete(UniverseState::Expansion, a) == a.expansion_settled,
        phase_complete(UniverseState::Accretion, a) == (a.active_seeds <= 1),
        phase_complete(UniverseState::Singularity, a) == a.singularity_done,
        phase_complete(UniverseState::Collapse, a) == (a.particle_count == 0 || a.collapse_timed_out),
        a.darkness_held == b.darkness_held ==> phase_complete(UniverseState::Darkness, a)
            == phase_complete(UniverseState::Darkness, b),
        a.bang_done == b.bang_done ==> phase_complete(UniverseState::BigBang, a) == phase_complete(
            UniverseState::BigBang,
            b,
        ),
        a.expansion_settled == b.expansion_settled ==> phase_complete(UniverseState::Expansion, a)
            == phase_complete(UniverseState::Expansion, b),
        a.active_seeds == b.active_seeds ==> phase_complete(UniverseState::Accretion, a)
            == phase_complete(UniverseState::Accretion, b),
        a.singularity_done == b.singularity_done ==> phase_complete(UniverseState::Singularity, a)
            == phase_complete(UniverseState::Singularity, b),
        (a.particle_count == b.particle_count && a.collapse_timed_out == b.collapse_timed_out)
            ==> phase_complete(UniverseState::Collapse, a) == phase_complete(
            UniverseState::Collapse,
            b,
        ),
        successor(UniverseState::Darkness) == UniverseState::BigBang,
        successor(UniverseState::BigBang) == UniverseState::Expansion,
        successor(UniverseState::Expansion) == UniverseState::Accretion,
        successor(UniverseState::Accretion) == UniverseState::Singularity,
        successor(UniverseState::Singularity) == UniverseState::Collapse,
        successor(UniverseState::Collapse) == UniverseState::Darkness,
{
}

} // verus!
