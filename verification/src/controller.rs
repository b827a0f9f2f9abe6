//! The per-tick state machine: the controller owns the behavior state, the
//! optional saving goal, the running total of banked coins and the spatial
//! memory, and every transition rule is a method with an exact contract.
//!
//! The engine loop drives one tick as: merge perception, forage, then (if
//! the tick-admission energy gate passes) the handler of the current state.
//! Each handler's decisions stand here; the engine only carries them out and
//! reports what happened.

use vstd::prelude::*;

use crate::coords::{Coord, Direction};
use crate::content::Inventory;
use crate::energy::{CONSTRUCTION_COST, cost_of_spec, CostClass};
use crate::memory::{
    any_free, filled_at, free_at, ledger_add_spec, ledger_of_spec, mark_filled_spec,
    merge_landmarks_spec, merge_seen_spec, SeenTile, SpatialMemory,
};
use crate::State;

verus! {

/// The goal is set and already met by what is banked.
pub open spec fn goal_met_spec(goal: Option<u64>, saved: u64) -> bool {
    match goal {
        Some(g) => saved >= g,
        None => false,
    }
}

/// The goal is set and what is banked plus what is carried would meet it.
pub open spec fn goal_reachable_spec(goal: Option<u64>, saved: u64, coins: u64) -> bool {
    match goal {
        Some(g) => saved + coins >= g,
        None => false,
    }
}

/// The decision-and-navigation controller: one value per agent, mutated only
/// through the tick methods below.
#[derive(Debug)]
pub struct AgentController {
    /// The behavior mode; starts at `CoinCollecting`, `Enjoying` is terminal.
    pub state: State,
    /// The optional total-saved target; immutable after construction.
    pub goal: Option<u64>,
    /// Total coins banked so far; never decreases.
    pub saved: u64,
    /// Landmark bookkeeping and seen-tile memory.
    pub memory: SpatialMemory,
}

impl AgentController {
    /// The controller's invariant: its spatial memory is well-formed.
    pub open spec fn wf(self) -> bool {
        self.memory.wf()
    }

    /// A fresh controller: collecting coins, nothing saved, empty memory.
    pub fn new(goal: Option<u64>) -> (c: Self)
        ensures
            c.wf(),
            c.state == State::CoinCollecting,
            c.goal == goal,
            c.saved == 0,
            c.memory.landmarks@.len() == 0,
            c.memory.seen@.len() == 0,
    {
        AgentController { state: State::CoinCollecting, goal, saved: 0, memory: SpatialMemory::new() }
    }

    /// Folds a sensor window into the spatial memory: landmark tiles are
    /// promoted, every tile is remembered. Changes nothing else; safe to run
    /// every tick whatever the energy level.
    pub fn merge_perception(&mut self, window: &Vec<SeenTile>)
        requires
            old(self).wf(),
        ensures
            final(self).wf(),
            final(self).memory.landmarks@ == merge_landmarks_spec(
                old(self).memory.landmarks@,
                window@,
            ),
            final(self).memory.seen@ == merge_seen_spec(old(self).memory.seen@, window@),
            final(self).state == old(self).state,
            final(self).goal == old(self).goal,
            final(self).saved == old(self).saved,
            final(self).saved >= old(self).saved,
    {
        self.memory.merge_perception(window);
    }

    /// The pre-wander check of the coin-collecting handler: when the goal is
    /// already reachable with the coins in hand, move straight to saving.
    pub fn check_goal_reachable(&mut self, coins: u64) -> (skip: bool)
        requires
            old(self).state == State::CoinCollecting,
        ensures
            skip == goal_reachable_spec(old(self).goal, old(self).saved, coins),
            skip ==> final(self).state == State::Saving,
            !skip ==> final(self).state == old(self).state,
            final(self).goal == old(self).goal,
            final(self).saved == old(self).saved,
            final(self).memory == old(self).memory,
            final(self).saved >= old(self).saved,
    {
        let reachable = match self.goal {
            Some(g) => self.saved >= g || coins >= g - self.saved,
            None => false,
        };
        if reachable {
            self.state = State::Saving;
        }
        reachable
    }

    /// The exit rule of the coin-collecting handler, evaluated after the
    /// wander: twelve coins or more always move to saving; otherwise enough
    /// garbage or rock moves to trading; otherwise keep collecting.
    pub fn exit_coin_collecting(&mut self, inv: &Inventory)
        requires
            old(self).state == State::CoinCollecting,
        ensures
            inv.coins >= 12 ==> final(self).state == State::Saving,
            inv.coins < 12 && (inv.garbage >= 5 || inv.rocks >= 3) ==> final(self).state
                == State::Trading,
            inv.coins < 12 && inv.garbage < 5 && inv.rocks < 3 ==> final(self).state
                == State::CoinCollecting,
            final(self).goal == old(self).goal,
            final(self).saved == old(self).saved,
            final(self).memory == old(self).memory,
            final(self).saved >= old(self).saved,
    {
        if inv.coins >= 12 {
            self.state = State::Saving;
        } else if inv.garbage >= 5 || inv.rocks >= 3 {
            self.state = State::Trading;
        }
    }

    /// The exit rule of the trading handler: after the conversion, enough
    /// coins move to saving, otherwise back to collecting.
    pub fn exit_trading(&mut self, coins_after: u64)
        requires
            old(self).state == State::Trading,
        ensures
            coins_after >= 12 ==> final(self).state == State::Saving,
            coins_after < 12 ==> final(self).state == State::CoinCollecting,
            final(self).goal == old(self).goal,
            final(self).saved == old(self).saved,
            final(self).memory == old(self).memory,
            final(self).saved >= old(self).saved,
    {
        if coins_after >= 12 {
            self.state = State::Saving;
        } else {
            self.state = State::CoinCollecting;
        }
    }

    /// The exit rule of the rock-collecting handler: enough rock moves to
    /// the finishing maneuver.
    pub fn exit_rock_collecting(&mut self, rocks: u64)
        requires
            old(self).state == State::RockCollecting,
        ensures
            rocks >= 8 ==> final(self).state == State::Finish,
            rocks < 8 ==> final(self).state == old(self).state,
            final(self).goal == old(self).goal,
            final(self).saved == old(self).saved,
            final(self).memory == old(self).memory,
            final(self).saved >= old(self).saved,
    {
        if rocks >= 8 {
            self.state = State::Finish;
        }
    }

    /// The exit rule of the bank-searching handler: as soon as a free bank
    /// is known, go save; otherwise keep searching.
    pub fn exit_bank_searching(&mut self)
        requires
            old(self).state == State::BankSearching,
        ensures
            any_free(old(self).memory.landmarks@) ==> final(self).state == State::Saving,
            !any_free(old(self).memory.landmarks@) ==> final(self).state == old(self).state,
            final(self).goal == old(self).goal,
            final(self).saved == old(self).saved,
            final(self).memory == old(self).memory,
            final(self).saved >= old(self).saved,
    {
        if self.memory.has_free_landmark() {
            self.state = State::Saving;
        }
    }

    /// Books a deposit the engine reported back: the accepted quantity goes
    /// into total-saved and into the bank's ledger entry; zero accepted
    /// marks the bank filled (exhausted) and leaves total-saved unchanged;
    /// a positive acceptance leaves the bank free. The deposit succeeded, so
    /// the handler leaves saving: to rock-collecting once the goal is met,
    /// else back to coin-collecting.
    pub fn settle_deposit(&mut self, bank: Coord, accepted: u64)
        requires
            old(self).wf(),
            old(self).state == State::Saving,
            free_at(old(self).memory.landmarks@, bank),
            old(self).saved + accepted <= u64::MAX,
            ledger_of_spec(old(self).memory.landmarks@, bank) + accepted <= u64::MAX,
        ensures
            final(self).wf(),
            final(self).saved == old(self).saved + accepted,
            final(self).saved >= old(self).saved,
            final(self).goal == old(self).goal,
            final(self).memory.seen@ == old(self).memory.seen@,
            ledger_of_spec(final(self).memory.landmarks@, bank) == ledger_of_spec(
                old(self).memory.landmarks@,
                bank,
            ) + accepted,
            accepted == 0 ==> !free_at(final(self).memory.landmarks@, bank) && filled_at(
                final(self).memory.landmarks@,
                bank,
            ),
            accepted == 0 ==> final(self).memory.landmarks@ == mark_filled_spec(
                ledger_add_spec(old(self).memory.landmarks@, bank, 0),
                bank,
            ),
            accepted > 0 ==> free_at(final(self).memory.landmarks@, bank),
            accepted > 0 ==> final(self).memory.landmarks@ == ledger_add_spec(
                old(self).memory.landmarks@,
                bank,
                accepted,
            ),
            goal_met_spec(old(self).goal, (old(self).saved + accepted) as u64)
                ==> final(self).state == State::RockCollecting,
            !goal_met_spec(old(self).goal, (old(self).saved + accepted) as u64)
                ==> final(self).state == State::CoinCollecting,
    {
        self.memory.add_deposit(bank, accepted);
        if accepted == 0 {
            self.memory.mark_filled(bank);
        }
        self.saved = self.saved + accepted;
        let met = match self.goal {
            Some(g) => self.saved >= g,
            None => false,
        };
        if met {
            self.state = State::RockCollecting;
        } else {
            self.state = State::CoinCollecting;
        }
    }

    /// The saving handler found no direction to deposit in: with the goal
    /// met go collect rock, otherwise go search for a bank.
    pub fn no_deposit_available(&mut self)
        requires
            old(self).state == State::Saving,
        ensures
            goal_met_spec(old(self).goal, old(self).saved) ==> final(self).state
                == State::RockCollecting,
            !goal_met_spec(old(self).goal, old(self).saved) ==> final(self).state
                == State::BankSearching,
            final(self).goal == old(self).goal,
            final(self).saved == old(self).saved,
            final(self).memory == old(self).memory,
            final(self).saved >= old(self).saved,
    {
        let met = match self.goal {
            Some(g) => self.saved >= g,
            None => false,
        };
        if met {
            self.state = State::RockCollecting;
        } else {
            self.state = State::BankSearching;
        }
    }

    /// One step of the finishing handler: build only when the best-earning
    /// bank was reached (a deposit direction exists) and the construction
    /// energy gate passes; building ends in the terminal enjoying state.
    pub fn finish_step(&mut self, bank_adjacent: bool, energy: u64) -> (build: bool)
        requires
            old(self).state == State::Finish,
        ensures
            build == (bank_adjacent && energy >= cost_of_spec(CostClass::Construction)),
            build ==> final(self).state == State::Enjoying,
            !build ==> final(self).state == old(self).state,
            final(self).goal == old(self).goal,
            final(self).saved == old(self).saved,
            final(self).memory == old(self).memory,
            final(self).saved >= old(self).saved,
    {
        if bank_adjacent && energy >= CONSTRUCTION_COST {
            self.state = State::Enjoying;
            true
        } else {
            false
        }
    }
}

/// The approach moves that bring the agent from a cardinal-adjacent position
/// next to a bank to the spot where the supporting structure is laid: one
/// fixed short walk per side the bank was found on.
pub open spec fn finish_approach_spec(d: Direction) -> Seq<Direction> {
    match d {
        Direction::Up => seq![Direction::Left],
        Direction::Down => seq![Direction::Left, Direction::Down, Direction::Down],
        Direction::Left => seq![Direction::Down],
        Direction::Right => seq![Direction::Down, Direction::Left, Direction::Left],
    }
}

/// The approach moves toward the building spot, given the side the bank was
/// found on.
pub fn finish_approach(d: Direction) -> (r: Vec<Direction>)
    ensures
        r@ == finish_approach_spec(d),
{
    let mut v: Vec<Direction> = Vec::new();
    match d {
        Direction::Up => {
            v.push(Direction::Left);
        },
        Direction::Down => {
            v.push(Direction::Left);
            v.push(Direction::Down);
            v.push(Direction::Down);
        },
        Direction::Left => {
            v.push(Direction::Down);
        },
        Direction::Right => {
            v.push(Direction::Down);
            v.push(Direction::Left);
            v.push(Direction::Left);
        },
    }
    proof {
        assert(v@ =~= finish_approach_spec(d));
    }
    v
}

/// The rectangle sides (width, height) of the four supporting-road projects
/// laid around the finishing bank.
pub fn finishing_shapes() -> (r: Vec<(u64, u64)>)
    ensures
        r@ == seq![(3u64, 1u64), (1u64, 2u64), (2u64, 1u64), (1u64, 2u64)],
{
    let mut v: Vec<(u64, u64)> = Vec::new();
    v.push((3, 1));
    v.push((1, 2));
    v.push((2, 1));
    v.push((1, 2));
    proof {
        assert(v@ =~= seq![(3u64, 1u64), (1u64, 2u64), (2u64, 1u64), (1u64, 2u64)]);
    }
    v
}

} // verus!
