use saver_bot::content::Inventory;
use saver_bot::controller::{finish_approach, finishing_shapes, AgentController};
use saver_bot::coords::{Coord, Direction};
use saver_bot::State;

fn inv(coins: u64, rocks: u64, garbage: u64) -> Inventory {
    Inventory { coins, rocks, garbage, trees: 0, fish: 0 }
}

#[test]
fn new_controller_starts_collecting() {
    let c = AgentController::new(Some(100));
    assert_eq!(c.state, State::CoinCollecting);
    assert_eq!(c.goal, Some(100));
    assert_eq!(c.saved, 0);
    assert_eq!(c.memory.landmarks.len(), 0);
    assert_eq!(c.memory.seen.len(), 0);
}

#[test]
fn coins_at_least_twelve_always_moves_to_saving() {
    for coins in [12u64, 13, 100, u64::MAX] {
        let mut c = AgentController::new(None);
        c.exit_coin_collecting(&inv(coins, 0, 0));
        assert_eq!(c.state, State::Saving);

        // Even with trade-worthy garbage and rock, coins win.
        let mut c = AgentController::new(Some(7));
        c.exit_coin_collecting(&inv(coins, 99, 99));
        assert_eq!(c.state, State::Saving);
    }
}

#[test]
fn garbage_or_rock_moves_to_trading() {
    let mut c = AgentController::new(None);
    c.exit_coin_collecting(&inv(11, 0, 5));
    assert_eq!(c.state, State::Trading);

    let mut c = AgentController::new(None);
    c.exit_coin_collecting(&inv(0, 3, 0));
    assert_eq!(c.state, State::Trading);
}

#[test]
fn too_little_of_everything_keeps_collecting() {
    let mut c = AgentController::new(None);
    c.exit_coin_collecting(&inv(11, 2, 4));
    assert_eq!(c.state, State::CoinCollecting);
}

#[test]
fn scenario_goal_50_saved_0_coins_12_transitions_to_saving() {
    let mut c = AgentController::new(Some(50));
    // Pre-wander check: 0 banked + 12 held does not reach 50 yet.
    let skip = c.check_goal_reachable(12);
    assert!(!skip);
    assert_eq!(c.state, State::CoinCollecting);
    // The exit rule still moves to Saving this tick: twelve coins in hand.
    c.exit_coin_collecting(&inv(12, 0, 0));
    assert_eq!(c.state, State::Saving);
}

#[test]
fn reachable_goal_skips_straight_to_saving() {
    let mut c = AgentController::new(Some(10));
    let skip = c.check_goal_reachable(12);
    assert!(skip);
    assert_eq!(c.state, State::Saving);

    let mut c = AgentController::new(None);
    assert!(!c.check_goal_reachable(u64::MAX));
    assert_eq!(c.state, State::CoinCollecting);
}

#[test]
fn trading_exit_depends_on_coins_after_conversion() {
    let mut c = AgentController::new(None);
    c.state = State::Trading;
    c.exit_trading(12);
    assert_eq!(c.state, State::Saving);

    let mut c = AgentController::new(None);
    c.state = State::Trading;
    c.exit_trading(11);
    assert_eq!(c.state, State::CoinCollecting);
}

#[test]
fn rock_collecting_exit_needs_eight_rocks() {
    let mut c = AgentController::new(None);
    c.state = State::RockCollecting;
    c.exit_rock_collecting(7);
    assert_eq!(c.state, State::RockCollecting);
    c.exit_rock_collecting(8);
    assert_eq!(c.state, State::Finish);
}

#[test]
fn bank_searching_exits_once_a_free_bank_is_known() {
    let mut c = AgentController::new(None);
    c.state = State::BankSearching;
    c.exit_bank_searching();
    assert_eq!(c.state, State::BankSearching);

    c.memory.record_landmark(Coord { row: 4, col: 4 });
    c.exit_bank_searching();
    assert_eq!(c.state, State::Saving);
}

#[test]
fn no_deposit_available_branches_on_goal() {
    let mut c = AgentController::new(Some(5));
    c.saved = 5;
    c.state = State::Saving;
    c.no_deposit_available();
    assert_eq!(c.state, State::RockCollecting);

    let mut c = AgentController::new(Some(5));
    c.state = State::Saving;
    c.no_deposit_available();
    assert_eq!(c.state, State::BankSearching);

    let mut c = AgentController::new(None);
    c.state = State::Saving;
    c.no_deposit_available();
    assert_eq!(c.state, State::BankSearching);
}

#[test]
fn settle_deposit_accumulates_and_transitions() {
    let bank = Coord { row: 2, col: 3 };
    let mut c = AgentController::new(Some(20));
    c.memory.record_landmark(bank);
    c.state = State::Saving;

    c.settle_deposit(bank, 12);
    assert_eq!(c.saved, 12);
    assert_eq!(c.memory.ledger_of(bank), 12);
    assert_eq!(c.state, State::CoinCollecting); // 12 < 20: goal unmet

    c.state = State::Saving;
    c.settle_deposit(bank, 9);
    assert_eq!(c.saved, 21);
    assert_eq!(c.memory.ledger_of(bank), 21); // the ledger accumulates per coordinate
    assert_eq!(c.state, State::RockCollecting); // 21 >= 20: goal met
    assert!(c.memory.is_free(bank));
}

#[test]
fn saved_total_never_decreases_over_a_tick_sequence() {
    let bank = Coord { row: 1, col: 1 };
    let mut c = AgentController::new(Some(100));
    c.memory.record_landmark(bank);
    let mut last = c.saved;
    let windows: Vec<u64> = vec![5, 0, 3];
    for accepted in windows {
        c.state = State::Saving;
        if c.memory.is_free(bank) {
            c.settle_deposit(bank, accepted);
        }
        assert!(c.saved >= last);
        last = c.saved;
    }
}

#[test]
fn finish_step_gates_on_adjacency_and_energy() {
    let mut c = AgentController::new(None);
    c.state = State::Finish;
    assert!(!c.finish_step(false, 10_000));
    assert_eq!(c.state, State::Finish);
    assert!(!c.finish_step(true, 499));
    assert_eq!(c.state, State::Finish);
    assert!(c.finish_step(true, 500));
    assert_eq!(c.state, State::Enjoying);
}

#[test]
fn finish_approach_walks_per_side() {
    assert_eq!(finish_approach(Direction::Up), vec![Direction::Left]);
    assert_eq!(
        finish_approach(Direction::Down),
        vec![Direction::Left, Direction::Down, Direction::Down]
    );
    assert_eq!(finish_approach(Direction::Left), vec![Direction::Down]);
    assert_eq!(
        finish_approach(Direction::Right),
        vec![Direction::Down, Direction::Left, Direction::Left]
    );
}

#[test]
fn finishing_shapes_are_the_four_road_rectangles() {
    assert_eq!(finishing_shapes(), vec![(3, 1), (1, 2), (2, 1), (1, 2)]);
}
