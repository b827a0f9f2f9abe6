//! Decision-and-navigation controller for an energy-budgeted foraging agent
//! on a grid world: a finite-state behavior machine, the spatial memory it
//! maintains (landmark bookkeeping and seen-tile memory), energy-gated
//! navigation and search planning, and bank-deposit bookkeeping.
//!
//! The engine that actually senses, moves, destroys and deposits is an
//! external service; this library makes every decision on plain values and
//! hands back plain values, so each rule is stated and verified here.

use vstd::prelude::*;

pub mod bank;
pub mod content;
pub mod controller;
pub mod coords;
pub mod energy;
pub mod forager;
pub mod memory;
pub mod navigator;
pub mod rng;
pub mod searcher;

verus! {

/// The behavior mode of the agent; exactly one holds at a time.
#[derive(Clone, Copy, Debug, PartialEq, Eq, PartialOrd, Ord, Structural)]
pub enum State {
    CoinCollecting,
    RockCollecting,
    Trading,
    Saving,
    Enjoying,
    BankSearching,
    Finish,
}

} // verus!
