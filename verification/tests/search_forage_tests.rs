use saver_bot::content::{bank_targets, coin_targets, rock_targets, ContentKind};
use saver_bot::coords::{Coord, Direction};
use saver_bot::forager::{harvest_is_safe, selective_harvest_plan};
use saver_bot::memory::{SeenTile, SpatialMemory};
use saver_bot::searcher::{
    choose_quadrant, eligible_quadrants, pop_nearest, probe_point, random_direction, Quadrant,
};

fn at(row: u32, col: u32) -> Coord {
    Coord { row, col }
}

fn all_quadrants() -> Vec<Quadrant> {
    vec![Quadrant::BottomLeft, Quadrant::BottomRight, Quadrant::TopLeft, Quadrant::TopRight]
}

#[test]
fn probe_points_sit_two_tiles_diagonally() {
    let agent = at(10, 10);
    assert_eq!(probe_point(agent, Quadrant::BottomLeft), at(12, 8));
    assert_eq!(probe_point(agent, Quadrant::BottomRight), at(12, 12));
    assert_eq!(probe_point(agent, Quadrant::TopLeft), at(8, 8));
    assert_eq!(probe_point(agent, Quadrant::TopRight), at(8, 12));
    // At the grid edge the probe point clamps instead of wrapping.
    assert_eq!(probe_point(at(1, 0), Quadrant::TopLeft), at(0, 0));
}

#[test]
fn unseen_probe_points_make_a_quadrant_eligible() {
    let agent = at(10, 10);
    let mut m = SpatialMemory::new();
    assert_eq!(eligible_quadrants(&m, agent), all_quadrants());

    m.record_seen(at(12, 8), ContentKind::Tree);
    assert_eq!(
        eligible_quadrants(&m, agent),
        vec![Quadrant::BottomRight, Quadrant::TopLeft, Quadrant::TopRight]
    );
}

#[test]
fn scenario_all_four_quadrants_seen_resets_eligibility_to_all_four() {
    let agent = at(10, 10);
    let mut m = SpatialMemory::new();
    for q in all_quadrants() {
        m.record_seen(probe_point(agent, q), ContentKind::Garbage);
    }
    assert_eq!(eligible_quadrants(&m, agent), all_quadrants());
    // And the choice made afterwards is one of the four again.
    let q = choose_quadrant(&m, agent);
    assert!(all_quadrants().contains(&q));
}

#[test]
fn chosen_quadrant_is_always_eligible() {
    let agent = at(10, 10);
    let mut m = SpatialMemory::new();
    m.record_seen(at(12, 8), ContentKind::Tree);
    m.record_seen(at(12, 12), ContentKind::Tree);
    m.record_seen(at(8, 12), ContentKind::Tree);
    for _ in 0..32 {
        assert_eq!(choose_quadrant(&m, agent), Quadrant::TopLeft);
    }
}

#[test]
fn random_direction_is_a_single_step() {
    for _ in 0..32 {
        let d = random_direction();
        assert!(matches!(
            d,
            Direction::Up | Direction::Down | Direction::Left | Direction::Right
        ));
    }
}

#[test]
fn pop_nearest_orders_the_visiting_queue_nearest_first() {
    let from = at(5, 5);
    let mut queue: Vec<Coord> = vec![at(9, 9), at(5, 6), at(0, 5), at(6, 6)];
    assert_eq!(pop_nearest(&mut queue, from), Some(at(5, 6)));
    assert_eq!(pop_nearest(&mut queue, from), Some(at(6, 6)));
    assert_eq!(pop_nearest(&mut queue, from), Some(at(0, 5)));
    assert_eq!(pop_nearest(&mut queue, from), Some(at(9, 9)));
    assert_eq!(pop_nearest(&mut queue, from), None);
    assert!(queue.is_empty());
}

#[test]
fn pop_nearest_breaks_ties_by_insertion_order() {
    let from = at(0, 0);
    let mut queue: Vec<Coord> = vec![at(1, 1), at(0, 2), at(2, 0)];
    assert_eq!(pop_nearest(&mut queue, from), Some(at(1, 1)));
    assert_eq!(pop_nearest(&mut queue, from), Some(at(0, 2)));
    assert_eq!(pop_nearest(&mut queue, from), Some(at(2, 0)));
}

#[test]
fn harvesting_is_unsafe_next_to_any_known_landmark() {
    let agent = at(5, 5);
    let mut m = SpatialMemory::new();
    assert!(harvest_is_safe(&m, agent));
    // Two tiles away is fine.
    m.record_landmark(at(5, 7));
    assert!(harvest_is_safe(&m, agent));
    // Every one of the eight neighbors is protected, diagonals included.
    for (row, col) in
        [(4, 4), (4, 5), (4, 6), (5, 4), (5, 6), (6, 4), (6, 5), (6, 6)]
    {
        let mut m = SpatialMemory::new();
        m.record_landmark(at(row, col));
        assert!(!harvest_is_safe(&m, agent), "neighbor ({row},{col}) must be protected");
    }
    // A filled landmark is protected too.
    let mut m = SpatialMemory::new();
    m.record_landmark(at(6, 6));
    m.mark_filled(at(6, 6));
    assert!(!harvest_is_safe(&m, agent));
}

#[test]
fn selective_plan_targets_wanted_content_only_never_banks() {
    let agent = at(5, 5);
    let window = vec![
        SeenTile { coord: at(4, 4), kind: ContentKind::Coin },
        SeenTile { coord: at(4, 5), kind: ContentKind::Bank },
        SeenTile { coord: at(5, 5), kind: ContentKind::Coin },
        SeenTile { coord: at(5, 6), kind: ContentKind::Garbage },
        SeenTile { coord: at(6, 5), kind: ContentKind::Rock },
        SeenTile { coord: at(6, 6), kind: ContentKind::Fish },
    ];
    let wanted = vec![ContentKind::Coin, ContentKind::Garbage, ContentKind::Bank];
    let plan = selective_harvest_plan(&window, agent, &wanted);
    // (4,4): coin, row above: Up. The bank and the agent's own tile yield
    // nothing; garbage at (5,6) is Right; rock and fish are not wanted.
    assert_eq!(plan, vec![Direction::Up, Direction::Right]);
}

#[test]
fn wanted_kind_lists_match_the_collecting_modes() {
    assert_eq!(
        coin_targets(),
        vec![
            ContentKind::Coin,
            ContentKind::Rock,
            ContentKind::Garbage,
            ContentKind::Tree,
            ContentKind::Fish
        ]
    );
    assert_eq!(rock_targets(), vec![ContentKind::Rock]);
    assert_eq!(bank_targets(), vec![ContentKind::Bank]);
}
