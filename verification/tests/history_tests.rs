use cosmos::history::{push_particle_history, TRAIL_CAP};

#[test]
fn test_push_particle_history() {
    let mut history = Vec::new();
    push_particle_history(&mut history, 10, 20);
    assert_eq!(history, vec![(10, 20)]);

    push_particle_history(&mut history, 30, 40);
    push_particle_history(&mut history, 50, 60);
    push_particle_history(&mut history, 70, 80);
    assert_eq!(history, vec![(10, 20), (30, 40), (50, 60), (70, 80)]);

    push_particle_history(&mut history, 90, 100);
    assert_eq!(history, vec![(30, 40), (50, 60), (70, 80), (90, 100)]);
}

#[test]
fn trail_keeps_only_the_latest_window() {
    let mut history = Vec::new();
    for k in 0..10 {
        push_particle_history(&mut history, k, -k);
        assert!(history.len() <= TRAIL_CAP);
    }
    assert_eq!(history, vec![(6, -6), (7, -7), (8, -8), (9, -9)]);
}

#[test]
fn overlong_trail_shifts_only_its_window() {
    let mut history = vec![(1, 1), (2, 2), (3, 3), (4, 4), (5, 5), (6, 6)];
    push_particle_history(&mut history, 9, 9);
    assert_eq!(history, vec![(2, 2), (3, 3), (4, 4), (9, 9), (5, 5), (6, 6)]);
}
