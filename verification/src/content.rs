//! Content kinds the agent cares about, the inventory it carries, and the
//! wanted-kind lists each collecting mode searches for.

use vstd::prelude::*;

verus! {

/// The kinds of tile content the controller distinguishes. `Bank` marks a
/// landmark (a deposit sink); the others are collectible resources.
#[derive(Clone, Copy, Debug, PartialEq, Eq, Hash, Structural)]
pub enum ContentKind {
    Coin,
    Rock,
    Garbage,
    Tree,
    Fish,
    Bank,
}

/// Whether a kind can be carried in the inventory.
pub open spec fn collectible_spec(kind: ContentKind) -> bool {
    kind != ContentKind::Bank
}

/// Counts of carried resources, one per collectible kind; never negative.
#[derive(Clone, Copy, Debug, PartialEq, Eq, Structural)]
pub struct Inventory {
    pub coins: u64,
    pub rocks: u64,
    pub garbage: u64,
    pub trees: u64,
    pub fish: u64,
}

impl Inventory {
    /// The count held of a kind; a landmark can never be held.
    pub open spec fn count_spec(self, kind: ContentKind) -> int {
        match kind {
            ContentKind::Coin => self.coins as int,
            ContentKind::Rock => self.rocks as int,
            ContentKind::Garbage => self.garbage as int,
            ContentKind::Tree => self.trees as int,
            ContentKind::Fish => self.fish as int,
            ContentKind::Bank => 0,
        }
    }

    /// An empty inventory.
    pub fn new() -> (inv: Self)
        ensures
            forall|k: ContentKind| inv.count_spec(k) == 0,
    {
        Inventory { coins: 0, rocks: 0, garbage: 0, trees: 0, fish: 0 }
    }

    /// The count held of `kind`.
    pub fn count(&self, kind: ContentKind) -> (n: u64)
        ensures
            n == self.count_spec(kind),
    {
        match kind {
            ContentKind::Coin => self.coins,
            ContentKind::Rock => self.rocks,
            ContentKind::Garbage => self.garbage,
            ContentKind::Tree => self.trees,
            ContentKind::Fish => self.fish,
            ContentKind::Bank => 0,
        }
    }

    /// Records a harvest or conversion gain of `n` units of `kind`.
    pub fn add(&mut self, kind: ContentKind, n: u64)
        requires
            collectible_spec(kind),
            old(self).count_spec(kind) + n <= u64::MAX,
        ensures
            final(self).count_spec(kind) == old(self).count_spec(kind) + n,
            forall|k: ContentKind| k != kind ==> final(self).count_spec(k) == old(self).count_spec(k),
    {
        match kind {
            ContentKind::Coin => self.coins = self.coins + n,
            ContentKind::Rock => self.rocks = self.rocks + n,
            ContentKind::Garbage => self.garbage = self.garbage + n,
            ContentKind::Tree => self.trees = self.trees + n,
            ContentKind::Fish => self.fish = self.fish + n,
            ContentKind::Bank => {},
        }
    }

    /// Records a deposit or conversion spend of `n` units of `kind`;
    /// the count never goes negative.
    pub fn remove(&mut self, kind: ContentKind, n: u64)
        requires
            n <= old(self).count_spec(kind),
        ensures
            final(self).count_spec(kind) == old(self).count_spec(kind) - n,
            forall|k: ContentKind| k != kind ==> final(self).count_spec(k) == old(self).count_spec(k),
    {
        match kind {
            ContentKind::Coin => self.coins = self.coins - n,
            ContentKind::Rock => self.rocks = self.rocks - n,
            ContentKind::Garbage => self.garbage = self.garbage - n,
            ContentKind::Tree => self.trees = self.trees - n,
            ContentKind::Fish => self.fish = self.fish - n,
            ContentKind::Bank => {},
        }
    }
}

/// What the coin-collecting mode gathers: every collectible kind.
pub fn coin_targets() -> (r: Vec<ContentKind>)
    ensures
        r@ == seq![
            ContentKind::Coin,
            ContentKind::Rock,
            ContentKind::Garbage,
            ContentKind::Tree,
            ContentKind::Fish,
        ],
{
    let mut v: Vec<ContentKind> = Vec::new();
    v.push(ContentKind::Coin);
    v.push(ContentKind::Rock);
    v.push(ContentKind::Garbage);
    v.push(ContentKind::Tree);
    v.push(ContentKind::Fish);
    assert(v@ =~= seq![
        ContentKind::Coin,
        ContentKind::Rock,
        ContentKind::Garbage,
        ContentKind::Tree,
        ContentKind::Fish,
    ]);
    v
}

/// What the rock-collecting mode gathers.
pub fn rock_targets() -> (r: Vec<ContentKind>)
    ensures
        r@ == seq![ContentKind::Rock],
{
    let mut v: Vec<ContentKind> = Vec::new();
    v.push(ContentKind::Rock);
    assert(v@ =~= seq![ContentKind::Rock]);
    v
}

/// What the bank-searching mode looks for.
pub fn bank_targets() -> (r: Vec<ContentKind>)
    ensures
        r@ == seq![ContentKind::Bank],
{
    let mut v: Vec<ContentKind> = Vec::new();
    v.push(ContentKind::Bank);
    assert(v@ =~= seq![ContentKind::Bank]);
    v
}

} // verus!
