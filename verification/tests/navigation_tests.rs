use saver_bot::coords::{adjacent8, apply_step, manhattan, Coord, Direction};
use saver_bot::energy::{can_act, CostClass};
use saver_bot::navigator::{nav_decision, step_toward, NavAction};

fn at(row: u32, col: u32) -> Coord {
    Coord { row, col }
}

#[test]
fn energy_gates_have_exact_thresholds() {
    assert!(!can_act(149, CostClass::TickAdmission));
    assert!(can_act(150, CostClass::TickAdmission));
    assert!(!can_act(49, CostClass::Movement));
    assert!(can_act(50, CostClass::Movement));
    assert!(!can_act(399, CostClass::SearchLoop));
    assert!(can_act(400, CostClass::SearchLoop));
    assert!(!can_act(499, CostClass::Construction));
    assert!(can_act(500, CostClass::Construction));
    assert!(!can_act(0, CostClass::Movement));
}

#[test]
fn manhattan_distance_values() {
    assert_eq!(manhattan(at(0, 0), at(0, 0)), 0);
    assert_eq!(manhattan(at(2, 3), at(5, 1)), 5);
    assert_eq!(manhattan(at(5, 1), at(2, 3)), 5);
    assert_eq!(manhattan(at(0, 0), at(u32::MAX, u32::MAX)), 2 * (u32::MAX as u64));
}

#[test]
fn adjacency_covers_all_eight_neighbors_and_nothing_else() {
    let center = at(5, 5);
    let mut count = 0;
    for row in 3..=7u32 {
        for col in 3..=7u32 {
            if adjacent8(at(row, col), center) {
                count += 1;
                assert!(row.abs_diff(5) <= 1 && col.abs_diff(5) <= 1);
                assert!((row, col) != (5, 5));
            }
        }
    }
    assert_eq!(count, 8);
    assert!(!adjacent8(center, center));
}

#[test]
fn below_step_threshold_no_move_is_planned() {
    // Already at the target: arrived whatever the energy says.
    assert_eq!(nav_decision(at(3, 3), at(3, 3), 0), NavAction::Arrived);
    // Not at the target and below the movement threshold: zero moves.
    assert_eq!(nav_decision(at(3, 3), at(9, 9), 49), NavAction::OutOfEnergy);
    assert_eq!(nav_decision(at(3, 3), at(9, 9), 0), NavAction::OutOfEnergy);
}

#[test]
fn walk_is_two_phase_rows_then_columns() {
    assert_eq!(nav_decision(at(2, 2), at(5, 0), 50), NavAction::Step(Direction::Down));
    assert_eq!(nav_decision(at(7, 2), at(5, 9), 50), NavAction::Step(Direction::Up));
    assert_eq!(nav_decision(at(5, 2), at(5, 9), 50), NavAction::Step(Direction::Right));
    assert_eq!(nav_decision(at(5, 9), at(5, 2), 50), NavAction::Step(Direction::Left));
}

#[test]
fn each_step_closes_the_gap_until_arrival() {
    let target = at(1, 6);
    let mut cur = at(4, 2);
    let mut steps = 0;
    while cur != target {
        cur = step_toward(cur, target);
        steps += 1;
    }
    assert_eq!(steps, manhattan(at(4, 2), target));
    assert_eq!(nav_decision(cur, target, 1000), NavAction::Arrived);
}

#[test]
fn apply_step_moves_one_tile() {
    assert_eq!(apply_step(at(3, 3), Direction::Up), at(2, 3));
    assert_eq!(apply_step(at(3, 3), Direction::Down), at(4, 3));
    assert_eq!(apply_step(at(3, 3), Direction::Left), at(3, 2));
    assert_eq!(apply_step(at(3, 3), Direction::Right), at(3, 4));
}
