use cosmos::lifecycle::{next_state, PhaseSignals, UniverseState};

fn quiet() -> PhaseSignals {
    PhaseSignals {
        darkness_held: false,
        bang_done: false,
        expansion_settled: false,
        active_seeds: 5,
        singularity_done: false,
        collapse_timed_out: false,
        particle_count: 100,
    }
}

#[test]
fn phases_hold_until_over() {
    for s in [
        UniverseState::Darkness,
        UniverseState::BigBang,
        UniverseState::Expansion,
        UniverseState::Accretion,
        UniverseState::Singularity,
        UniverseState::Collapse,
    ] {
        assert_eq!(next_state(s, &quiet()), None);
    }
}

#[test]
fn full_lifecycle_returns_to_darkness() {
    let all_done = PhaseSignals {
        darkness_held: true,
        bang_done: true,
        expansion_settled: true,
        active_seeds: 1,
        singularity_done: true,
        collapse_timed_out: true,
        particle_count: 0,
    };
    let mut s = UniverseState::Darkness;
    let mut seen = vec![s];
    for _ in 0..6 {
        s = next_state(s, &all_done).unwrap();
        seen.push(s);
    }
    assert_eq!(
        seen,
        vec![
            UniverseState::Darkness,
            UniverseState::BigBang,
            UniverseState::Expansion,
            UniverseState::Accretion,
            UniverseState::Singularity,
            UniverseState::Collapse,
            UniverseState::Darkness,
        ]
    );
}

#[test]
fn each_phase_reads_its_own_signal() {
    let mut sig = quiet();
    sig.darkness_held = true;
    assert_eq!(next_state(UniverseState::Darkness, &sig), Some(UniverseState::BigBang));
    assert_eq!(next_state(UniverseState::BigBang, &sig), None);

    let mut sig = quiet();
    sig.bang_done = true;
    assert_eq!(next_state(UniverseState::BigBang, &sig), Some(UniverseState::Expansion));

    let mut sig = quiet();
    sig.expansion_settled = true;
    assert_eq!(next_state(UniverseState::Expansion, &sig), Some(UniverseState::Accretion));

    let mut sig = quiet();
    sig.active_seeds = 2;
    assert_eq!(next_state(UniverseState::Accretion, &sig), None);
    sig.active_seeds = 1;
    assert_eq!(next_state(UniverseState::Accretion, &sig), Some(UniverseState::Singularity));
    sig.active_seeds = 0;
    assert_eq!(next_state(UniverseState::Accretion, &sig), Some(UniverseState::Singularity));

    let mut sig = quiet();
    sig.singularity_done = true;
    assert_eq!(next_state(UniverseState::Singularity, &sig), Some(UniverseState::Collapse));

    let mut sig = quiet();
    sig.particle_count = 0;
    assert_eq!(next_state(UniverseState::Collapse, &sig), Some(UniverseState::Darkness));
    let mut sig = quiet();
    sig.collapse_timed_out = true;
    assert_eq!(next_state(UniverseState::Collapse, &sig), Some(UniverseState::Darkness));
}
