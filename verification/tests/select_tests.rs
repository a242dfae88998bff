use cosmos::budget::{big_bang_base_particles, can_spawn, grid_quality_tier, GridTier};
use cosmos::host::{host_name_code_sum, reports_battery};
use cosmos::select::{count_active, first_active, remove_marked};

#[test]
fn counts_and_finds_active_bodies() {
    assert_eq!(count_active(&vec![]), 0);
    assert_eq!(count_active(&vec![true, false, true, true]), 3);
    assert_eq!(first_active(&vec![false, false, true, true]), Some(2));
    assert_eq!(first_active(&vec![false, false]), None);
    assert_eq!(first_active(&vec![]), None);
}

#[test]
fn removes_exactly_the_marked_items_in_order() {
    let items = vec!["a".to_string(), "b".to_string(), "c".to_string(), "d".to_string()];
    let kept = remove_marked(items, &vec![false, true, true, false]);
    assert_eq!(kept, vec!["a".to_string(), "d".to_string()]);
    let kept = remove_marked(vec![1, 2, 3], &vec![false, false, false]);
    assert_eq!(kept, vec![1, 2, 3]);
    let kept = remove_marked(vec![1, 2, 3], &vec![true, true, true]);
    assert!(kept.is_empty());
}

#[test]
fn spawn_budget_saturates() {
    assert!(can_spawn(100, 50, 150));
    assert!(!can_spawn(100, 51, 150));
    assert!(!can_spawn(usize::MAX, 1, usize::MAX - 1));
    assert!(can_spawn(usize::MAX, 1, usize::MAX));
}

#[test]
fn grid_tiers_follow_cell_count() {
    assert_eq!(grid_quality_tier(80, 24), GridTier::Compact);
    assert_eq!(grid_quality_tier(100, 60), GridTier::Compact);
    assert_eq!(grid_quality_tier(100, 61), GridTier::Large);
    assert_eq!(grid_quality_tier(100, 100), GridTier::Large);
    assert_eq!(grid_quality_tier(100, 101), GridTier::Huge);
    assert_eq!(grid_quality_tier(210, 57), GridTier::Huge);
    assert_eq!(grid_quality_tier(usize::MAX, 2), GridTier::Huge);
}

#[test]
fn big_bang_particle_base() {
    assert_eq!(big_bang_base_particles(0), 120);
    assert_eq!(big_bang_base_particles(3), 255);
    assert_eq!(big_bang_base_particles(7), 435);
    assert_eq!(big_bang_base_particles(8), 470);
    assert_eq!(big_bang_base_particles(1000), 470);
}

#[test]
fn host_facts() {
    assert_eq!(host_name_code_sum(""), 0);
    assert_eq!(host_name_code_sum("ab"), 97 + 98);
    assert!(reports_battery("Battery 80%"));
    assert!(reports_battery("On Battery"));
    assert!(!reports_battery("AC"));
    assert!(!reports_battery("battery"));
    assert!(!reports_battery("Batter"));
}

#[test]
fn removal_keeps_one_item_per_unset_flag() {
    let marked = vec![true, false, false, true, false];
    let kept = remove_marked(vec![10, 20, 30, 40, 50], &marked);
    assert_eq!(kept.len() + count_active(&marked), 5);
    assert_eq!(kept, vec![20, 30, 50]);
}

#[test]
fn bigger_grids_never_get_a_milder_cap() {
    let rank = |t: GridTier| match t {
        GridTier::Compact => 0,
        GridTier::Large => 1,
        GridTier::Huge => 2,
    };
    let sizes = [(10, 10), (80, 24), (100, 61), (120, 70), (210, 57), (400, 200)];
    for &(c1, r1) in &sizes {
        for &(c2, r2) in &sizes {
            if c1 <= c2 && r1 <= r2 {
                assert!(rank(grid_quality_tier(c1, r1)) <= rank(grid_quality_tier(c2, r2)));
            }
        }
    }
}
