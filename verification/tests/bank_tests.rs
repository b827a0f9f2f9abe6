use saver_bot::bank::{accepted_amount, deposit_direction, evasion_order};
use saver_bot::content::{ContentKind, Inventory};
use saver_bot::controller::AgentController;
use saver_bot::coords::{Coord, Direction};
use saver_bot::memory::SeenTile;
use saver_bot::State;

fn at(row: u32, col: u32) -> Coord {
    Coord { row, col }
}

#[test]
fn acceptance_is_capacity_limited() {
    assert_eq!(accepted_amount(20, 15), 15);
    assert_eq!(accepted_amount(15, 20), 15);
    assert_eq!(accepted_amount(7, 7), 7);
    assert_eq!(accepted_amount(5, 0), 0);
    assert_eq!(accepted_amount(0, 9), 0);
}

#[test]
fn scenario_deposit_of_20_against_capacity_15() {
    let bank = at(3, 3);
    let mut c = AgentController::new(None);
    c.memory.record_landmark(bank);
    c.state = State::Saving;

    let mut carried = Inventory { coins: 20, rocks: 0, garbage: 0, trees: 0, fish: 0 };
    let accepted = accepted_amount(carried.coins, 15);
    assert_eq!(accepted, 15);
    carried.remove(ContentKind::Coin, accepted);
    c.settle_deposit(bank, accepted);

    assert_eq!(carried.coins, 20 - 15);
    assert!(c.memory.is_free(bank)); // a partial acceptance keeps the bank free
    assert_eq!(c.saved, 15);
    assert_eq!(c.memory.ledger_of(bank), 15);
}

#[test]
fn scenario_zero_accepted_fills_the_bank_and_keeps_the_total() {
    let bank = at(4, 9);
    let mut c = AgentController::new(Some(50));
    c.memory.record_landmark(bank);
    c.state = State::Saving;
    c.settle_deposit(bank, 6);
    assert_eq!(c.saved, 6);

    c.state = State::Saving;
    c.settle_deposit(bank, 0);
    assert!(!c.memory.is_free(bank));
    assert!(c.memory.is_filled(bank));
    assert_eq!(c.saved, 6); // total-saved unchanged
    assert_eq!(c.memory.ledger_of(bank), 6);
    assert_eq!(c.state, State::CoinCollecting); // the deposit call still succeeded
}

#[test]
fn deposit_direction_finds_the_first_cardinal_adjacent_bank() {
    let agent = at(5, 5);
    let window = vec![
        SeenTile { coord: at(4, 4), kind: ContentKind::Bank }, // diagonal: not depositable
        SeenTile { coord: at(4, 5), kind: ContentKind::Coin }, // adjacent but no bank
        SeenTile { coord: at(5, 6), kind: ContentKind::Bank },
        SeenTile { coord: at(6, 5), kind: ContentKind::Bank },
    ];
    assert_eq!(deposit_direction(&window, agent), Some(Direction::Right));

    let no_bank = vec![
        SeenTile { coord: at(4, 4), kind: ContentKind::Bank },
        SeenTile { coord: at(7, 5), kind: ContentKind::Bank },
    ];
    assert_eq!(deposit_direction(&no_bank, agent), None);
    assert_eq!(deposit_direction(&Vec::new(), agent), None);
}

#[test]
fn evasion_directions_come_in_fixed_order() {
    assert_eq!(
        evasion_order(),
        vec![Direction::Left, Direction::Right, Direction::Up, Direction::Down]
    );
}

#[test]
fn inventory_counts_move_only_by_their_kind() {
    let mut inv = Inventory::new();
    assert_eq!(inv.count(ContentKind::Coin), 0);
    inv.add(ContentKind::Coin, 9);
    inv.add(ContentKind::Rock, 2);
    assert_eq!(inv.count(ContentKind::Coin), 9);
    assert_eq!(inv.count(ContentKind::Rock), 2);
    assert_eq!(inv.count(ContentKind::Garbage), 0);
    assert_eq!(inv.count(ContentKind::Bank), 0);
    inv.remove(ContentKind::Coin, 4);
    assert_eq!(inv.count(ContentKind::Coin), 5);
    assert_eq!(inv.count(ContentKind::Rock), 2);
}
