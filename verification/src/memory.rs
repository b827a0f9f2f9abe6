//! The agent's spatial memory: one record per known landmark, carrying a
//! status tag (`Free` or `Filled`) and that landmark's cumulative-deposit
//! ledger entry, plus an append-only memory of previously observed tiles.
//!
//! A coordinate owns at most one record, so it can never be both free and
//! filled; the `Free` to `Filled` transition is one-directional.

use vstd::prelude::*;

use crate::content::ContentKind;
use crate::coords::{manhattan, manhattan_spec, Coord};

verus! {

/// Whether a landmark still accepts deposits.
#[derive(Clone, Copy, Debug, PartialEq, Eq, Structural)]
pub enum LandmarkStatus {
    Free,
    Filled,
}

/// Everything remembered about one landmark: where it is, whether it still
/// accepts deposits, and how much has been deposited there so far.
#[derive(Clone, Copy, Debug, PartialEq, Eq, Structural)]
pub struct LandmarkRecord {
    pub coord: Coord,
    pub status: LandmarkStatus,
    pub deposited: u64,
}

/// One observed tile: where it was seen and what it held.
#[derive(Clone, Copy, Debug, PartialEq, Eq, Structural)]
pub struct SeenTile {
    pub coord: Coord,
    pub kind: ContentKind,
}

/// The landmark bookkeeping and the seen-tile memory; created empty and
/// growing monotonically over the agent's lifetime.
#[derive(Debug)]
pub struct SpatialMemory {
    pub landmarks: Vec<LandmarkRecord>,
    pub seen: Vec<SeenTile>,
}

/// Well-formed landmark bookkeeping: each coordinate owns at most one record.
pub open spec fn wf_landmarks(s: Seq<LandmarkRecord>) -> bool {
    forall|i: int, j: int| 0 <= i < j < s.len() ==> s[i].coord != s[j].coord
}

/// Some record exists for `c`.
pub open spec fn has_coord(s: Seq<LandmarkRecord>, c: Coord) -> bool {
    exists|i: int| 0 <= i < s.len() && s[i].coord == c
}

/// An index of a record for `c` (the index, once `wf_landmarks` holds).
pub open spec fn coord_idx(s: Seq<LandmarkRecord>, c: Coord) -> int {
    choose|i: int| 0 <= i < s.len() && s[i].coord == c
}

/// A free landmark is recorded at `c`.
pub open spec fn free_at(s: Seq<LandmarkRecord>, c: Coord) -> bool {
    exists|i: int| 0 <= i < s.len() && s[i].coord == c && s[i].status == LandmarkStatus::Free
}

/// Some free landmark is recorded somewhere.
pub open spec fn any_free(s: Seq<LandmarkRecord>) -> bool {
    exists|i: int| 0 <= i < s.len() && s[i].status == LandmarkStatus::Free
}

/// An index of a free record for `c`.
pub open spec fn free_idx(s: Seq<LandmarkRecord>, c: Coord) -> int {
    choose|i: int| 0 <= i < s.len() && s[i].coord == c && s[i].status == LandmarkStatus::Free
}

/// A filled landmark is recorded at `c`.
pub open spec fn filled_at(s: Seq<LandmarkRecord>, c: Coord) -> bool {
    exists|i: int| 0 <= i < s.len() && s[i].coord == c && s[i].status == LandmarkStatus::Filled
}

/// The cumulative-deposit ledger entry for `c`; zero while no record exists.
pub open spec fn ledger_of_spec(s: Seq<LandmarkRecord>, c: Coord) -> int {
    if has_coord(s, c) {
        s[coord_idx(s, c)].deposited as int
    } else {
        0
    }
}

/// The record a newly promoted landmark gets.
pub open spec fn fresh_landmark_spec(c: Coord) -> LandmarkRecord {
    LandmarkRecord { coord: c, status: LandmarkStatus::Free, deposited: 0 }
}

/// What recording a landmark does: inserts a free record unless the
/// coordinate is already known in either status.
pub open spec fn record_landmark_spec(s: Seq<LandmarkRecord>, c: Coord) -> Seq<LandmarkRecord> {
    if has_coord(s, c) {
        s
    } else {
        s.push(fresh_landmark_spec(c))
    }
}

/// What marking a landmark filled does: flips the free record at `c` to
/// `Filled`, and is a no-op when no free record exists there.
pub open spec fn mark_filled_spec(s: Seq<LandmarkRecord>, c: Coord) -> Seq<LandmarkRecord> {
    if free_at(s, c) {
        let i = free_idx(s, c);
        s.update(
            i,
            LandmarkRecord {
                coord: s[i].coord,
                status: LandmarkStatus::Filled,
                deposited: s[i].deposited,
            },
        )
    } else {
        s
    }
}

/// What accumulating a deposit does: adds to the ledger entry of the record
/// at `c`, creating a free record with that entry when none exists.
pub open spec fn ledger_add_spec(s: Seq<LandmarkRecord>, c: Coord, amount: u64) -> Seq<
    LandmarkRecord,
> {
    if has_coord(s, c) {
        let i = coord_idx(s, c);
        s.update(
            i,
            LandmarkRecord {
                coord: s[i].coord,
                status: s[i].status,
                deposited: (s[i].deposited + amount) as u64,
            },
        )
    } else {
        s.push(LandmarkRecord { coord: c, status: LandmarkStatus::Free, deposited: amount })
    }
}

/// Folding a batch of found landmark coordinates into the bookkeeping,
/// each recorded idempotently, in order.
pub open spec fn record_all_spec(s: Seq<LandmarkRecord>, cs: Seq<Coord>) -> Seq<LandmarkRecord>
    decreases cs.len(),
{
    if cs.len() == 0 {
        s
    } else {
        record_all_spec(record_landmark_spec(s, cs[0]), cs.subrange(1, cs.len() as int))
    }
}

/// The exact pair (coordinate, observed content) is in the seen memory.
pub open spec fn seen_has(s: Seq<SeenTile>, t: SeenTile) -> bool {
    exists|i: int| 0 <= i < s.len() && s[i] == t
}

/// Some observation of the coordinate is in the seen memory.
pub open spec fn seen_coord(s: Seq<SeenTile>, c: Coord) -> bool {
    exists|i: int| 0 <= i < s.len() && s[i].coord == c
}

/// What recording an observation does: appends it unless the same pair is
/// already remembered.
pub open spec fn record_seen_spec(s: Seq<SeenTile>, t: SeenTile) -> Seq<SeenTile> {
    if seen_has(s, t) {
        s
    } else {
        s.push(t)
    }
}

/// One perception step: a landmark tile is promoted into the bookkeeping,
/// any other tile leaves it unchanged.
pub open spec fn merge_landmark_step(s: Seq<LandmarkRecord>, t: SeenTile) -> Seq<LandmarkRecord> {
    if t.kind == ContentKind::Bank {
        record_landmark_spec(s, t.coord)
    } else {
        s
    }
}

/// Folding a whole sensor window into the landmark bookkeeping.
pub open spec fn merge_landmarks_spec(s: Seq<LandmarkRecord>, w: Seq<SeenTile>) -> Seq<
    LandmarkRecord,
>
    decreases w.len(),
{
    if w.len() == 0 {
        s
    } else {
        merge_landmarks_spec(merge_landmark_step(s, w[0]), w.subrange(1, w.len() as int))
    }
}

/// Folding a whole sensor window into the seen memory.
pub open spec fn merge_seen_spec(s: Seq<SeenTile>, w: Seq<SeenTile>) -> Seq<SeenTile>
    decreases w.len(),
{
    if w.len() == 0 {
        s
    } else {
        merge_seen_spec(record_seen_spec(s, w[0]), w.subrange(1, w.len() as int))
    }
}

/// `i` indexes a free record whose distance from `from` is minimal among
/// free records, and the first such record in scan order.
pub open spec fn nearest_free_at(s: Seq<LandmarkRecord>, from: Coord, i: int) -> bool {
    &&& 0 <= i < s.len()
    &&& s[i].status == LandmarkStatus::Free
    &&& forall|j: int|
        0 <= j < s.len() && s[j].status == LandmarkStatus::Free ==> manhattan_spec(
            s[i].coord,
            from,
        ) <= manhattan_spec(s[j].coord, from)
    &&& forall|j: int|
        0 <= j < i && s[j].status == LandmarkStatus::Free ==> manhattan_spec(s[j].coord, from)
            > manhattan_spec(s[i].coord, from)
}

/// `i` indexes a record with the largest cumulative deposit, strictly
/// positive, and the first such record in scan order.
pub open spec fn best_earner_at(s: Seq<LandmarkRecord>, i: int) -> bool {
    &&& 0 <= i < s.len()
    &&& s[i].deposited > 0
    &&& forall|j: int| 0 <= j < s.len() ==> s[j].deposited <= s[i].deposited
    &&& forall|j: int| 0 <= j < i ==> s[j].deposited < s[i].deposited
}

impl SpatialMemory {
    /// Each coordinate owns at most one landmark record.
    pub open spec fn wf(self) -> bool {
        wf_landmarks(self.landmarks@)
    }

    /// Empty memory: nothing known, nothing seen.
    pub fn new() -> (m: Self)
        ensures
            m.wf(),
            m.landmarks@ == Seq::<LandmarkRecord>::empty(),
            m.seen@ == Seq::<SeenTile>::empty(),
    {
        SpatialMemory { landmarks: Vec::new(), seen: Vec::new() }
    }

    /// Whether any landmark is recorded at `c`.
    pub fn is_known(&self, c: Coord) -> (r: bool)
        ensures
            r == has_coord(self.landmarks@, c),
    {
        let n = self.landmarks.len();
        let mut i: usize = 0;
        while i < n
            invariant
                i <= n,
                n == self.landmarks@.len(),
                forall|j: int| 0 <= j < i ==> self.landmarks@[j].coord != c,
            decreases n - i,
        {
            if self.landmarks[i].coord == c {
                proof {
                    assert(self.landmarks@[i as int].coord == c);
                    assert(has_coord(self.landmarks@, c));
                }
                return true;
            }
            i = i + 1;
        }
        false
    }

    /// Whether a free landmark is recorded at `c`.
    pub fn is_free(&self, c: Coord) -> (r: bool)
        ensures
            r == free_at(self.landmarks@, c),
    {
        let n = self.landmarks.len();
        let mut i: usize = 0;
        while i < n
            invariant
                i <= n,
                n == self.landmarks@.len(),
                forall|j: int|
                    0 <= j < i ==> !(self.landmarks@[j].coord == c && self.landmarks@[j].status
                        == LandmarkStatus::Free),
            decreases n - i,
        {
            let rec = self.landmarks[i];
            if rec.coord == c && rec.status == LandmarkStatus::Free {
                proof {
                    assert(self.landmarks@[i as int].coord == c && self.landmarks@[i as int].status
                        == LandmarkStatus::Free);
                    assert(free_at(self.landmarks@, c));
                }
                return true;
            }
            i = i + 1;
        }
        false
    }

    /// Whether a filled landmark is recorded at `c`.
    pub fn is_filled(&self, c: Coord) -> (r: bool)
        ensures
            r == filled_at(self.landmarks@, c),
    {
        let n = self.landmarks.len();
        let mut i: usize = 0;
        while i < n
            invariant
                i <= n,
                n == self.landmarks@.len(),
                forall|j: int|
                    0 <= j < i ==> !(self.landmarks@[j].coord == c && self.landmarks@[j].status
                        == LandmarkStatus::Filled),
            decreases n - i,
        {
            let rec = self.landmarks[i];
            if rec.coord == c && rec.status == LandmarkStatus::Filled {
                proof {
                    assert(self.landmarks@[i as int].coord == c && self.landmarks@[i as int].status
                        == LandmarkStatus::Filled);
                    assert(filled_at(self.landmarks@, c));
                }
                return true;
            }
            i = i + 1;
        }
        false
    }

    /// The cumulative-deposit ledger entry for `c`.
    pub fn ledger_of(&self, c: Coord) -> (r: u64)
        requires
            self.wf(),
        ensures
            r == ledger_of_spec(self.landmarks@, c),
    {
        let n = self.landmarks.len();
        let mut i: usize = 0;
        while i < n
            invariant
                i <= n,
                n == self.landmarks@.len(),
                self.wf(),
                forall|j: int| 0 <= j < i ==> self.landmarks@[j].coord != c,
            decreases n - i,
        {
            let rec = self.landmarks[i];
            if rec.coord == c {
                proof {
                    assert(self.landmarks@[i as int].coord == c);
                    assert(has_coord(self.landmarks@, c));
                    let k = coord_idx(self.landmarks@, c);
                    assert(0 <= k < self.landmarks@.len() && self.landmarks@[k].coord == c);
                    lemma_unique_idx(self.landmarks@, k, i as int);
                }
                return rec.deposited;
            }
            i = i + 1;
        }
        proof {
            false_has_coord_means_zero(self.landmarks@, c);
        }
        0
    }

    /// Records a landmark at `c`: inserts a free record, idempotently.
    pub fn record_landmark(&mut self, c: Coord)
        requires
            old(self).wf(),
        ensures
            final(self).wf(),
            final(self).landmarks@ == record_landmark_spec(old(self).landmarks@, c),
            final(self).seen@ == old(self).seen@,
            has_coord(final(self).landmarks@, c),
    {
        let n = self.landmarks.len();
        let mut i: usize = 0;
        while i < n
            invariant
                i <= n,
                n == self.landmarks@.len(),
                self.landmarks@ == old(self).landmarks@,
                self.seen@ == old(self).seen@,
                old(self).wf(),
                forall|j: int| 0 <= j < i ==> self.landmarks@[j].coord != c,
            decreases n - i,
        {
            if self.landmarks[i].coord == c {
                proof {
                    assert(self.landmarks@[i as int].coord == c);
                    assert(has_coord(self.landmarks@, c));
                }
                return;
            }
            i = i + 1;
        }
        proof {
            assert(!has_coord(self.landmarks@, c));
        }
        self.landmarks.push(LandmarkRecord { coord: c, status: LandmarkStatus::Free, deposited: 0 });
        proof {
            let s0 = old(self).landmarks@;
            assert(self.landmarks@ =~= record_landmark_spec(s0, c));
            let last = s0.len() as int;
            assert(self.landmarks@[last].coord == c);
            assert(has_coord(self.landmarks@, c));
            assert forall|a: int, b: int| 0 <= a < b < self.landmarks@.len() implies self.landmarks@[a].coord
                != self.landmarks@[b].coord by {
                assert(self.landmarks@[a] == s0[a]);
                if b < last {
                    assert(self.landmarks@[b] == s0[b]);
                } else {
                    assert(self.landmarks@[b].coord == c);
                    assert(s0[a].coord != c);
                }
            }
        }
    }

    /// Marks the landmark at `c` filled: removes it from the free records and
    /// keeps everything else, silently doing nothing when `c` is not free.
    pub fn mark_filled(&mut self, c: Coord)
        requires
            old(self).wf(),
        ensures
            final(self).wf(),
            final(self).landmarks@ == mark_filled_spec(old(self).landmarks@, c),
            final(self).seen@ == old(self).seen@,
            !free_at(final(self).landmarks@, c),
            free_at(old(self).landmarks@, c) ==> filled_at(final(self).landmarks@, c),
    {
        let n = self.landmarks.len();
        let mut i: usize = 0;
        while i < n
            invariant
                i <= n,
                n == self.landmarks@.len(),
                self.landmarks@ == old(self).landmarks@,
                self.seen@ == old(self).seen@,
                old(self).wf(),
                forall|j: int|
                    0 <= j < i ==> !(self.landmarks@[j].coord == c && self.landmarks@[j].status
                        == LandmarkStatus::Free),
            decreases n - i,
        {
            let rec = self.landmarks[i];
            if rec.coord == c && rec.status == LandmarkStatus::Free {
                let ghost s0 = self.landmarks@;
                proof {
                    assert(s0[i as int].coord == c && s0[i as int].status == LandmarkStatus::Free);
                    assert(free_at(s0, c));
                }
                self.landmarks.set(
                    i,
                    LandmarkRecord {
                        coord: rec.coord,
                        status: LandmarkStatus::Filled,
                        deposited: rec.deposited,
                    },
                );
                proof {
                    let k = free_idx(s0, c);
                    assert(0 <= k < s0.len() && s0[k].coord == c && s0[k].status
                        == LandmarkStatus::Free);
                    lemma_unique_idx(s0, k, i as int);
                    assert(self.landmarks@ =~= mark_filled_spec(s0, c));
                    lemma_mark_filled_preserves_wf(s0, c);
                    assert forall|j: int|
                        0 <= j < self.landmarks@.len() implies !(self.landmarks@[j].coord == c
                        && self.landmarks@[j].status == LandmarkStatus::Free) by {
                        if j != i as int {
                            assert(self.landmarks@[j] == s0[j]);
                            if s0[j].coord == c {
                                lemma_unique_idx(s0, j, i as int);
                            }
                        }
                    }
                    assert(self.landmarks@[i as int].coord == c && self.landmarks@[i as int].status
                        == LandmarkStatus::Filled);
                    assert(filled_at(self.landmarks@, c));
                }
                return;
            }
            i = i + 1;
        }
        proof {
            assert(!free_at(self.landmarks@, c));
        }
    }

    /// Accumulates `amount` into the ledger entry of the record at `c`,
    /// creating the entry (as a free record) when none exists.
    pub fn add_deposit(&mut self, c: Coord, amount: u64)
        requires
            old(self).wf(),
            ledger_of_spec(old(self).landmarks@, c) + amount <= u64::MAX,
        ensures
            final(self).wf(),
            final(self).landmarks@ == ledger_add_spec(old(self).landmarks@, c, amount),
            final(self).seen@ == old(self).seen@,
            ledger_of_spec(final(self).landmarks@, c) == ledger_of_spec(old(self).landmarks@, c)
                + amount,
            free_at(final(self).landmarks@, c) == (free_at(old(self).landmarks@, c) || !has_coord(
                old(self).landmarks@,
                c,
            )),
            filled_at(final(self).landmarks@, c) == filled_at(old(self).landmarks@, c),
    {
        let n = self.landmarks.len();
        let mut i: usize = 0;
        while i < n
            invariant
                i <= n,
                n == self.landmarks@.len(),
                self.landmarks@ == old(self).landmarks@,
                self.seen@ == old(self).seen@,
                old(self).wf(),
                ledger_of_spec(old(self).landmarks@, c) + amount <= u64::MAX,
                forall|j: int| 0 <= j < i ==> self.landmarks@[j].coord != c,
            decreases n - i,
        {
            let rec = self.landmarks[i];
            if rec.coord == c {
                let ghost s0 = self.landmarks@;
                proof {
                    assert(s0[i as int].coord == c);
                    assert(has_coord(s0, c));
                    let k = coord_idx(s0, c);
                    assert(0 <= k < s0.len() && s0[k].coord == c);
                    lemma_unique_idx(s0, k, i as int);
                }
                self.landmarks.set(
                    i,
                    LandmarkRecord {
                        coord: rec.coord,
                        status: rec.status,
                        deposited: rec.deposited + amount,
                    },
                );
                proof {
                    assert(self.landmarks@ =~= ledger_add_spec(s0, c, amount));
                    lemma_ledger_add_at(s0, c, amount);
                }
                return;
            }
            i = i + 1;
        }
        let ghost s0 = self.landmarks@;
        proof {
            assert(!has_coord(s0, c));
        }
        self.landmarks.push(LandmarkRecord { coord: c, status: LandmarkStatus::Free, deposited: amount });
        proof {
            assert(self.landmarks@ =~= ledger_add_spec(s0, c, amount));
            lemma_ledger_add_at(s0, c, amount);
        }
    }

    /// Records every coordinate a directional search returned as a landmark,
    /// deduplicated against what is already known.
    pub fn record_landmarks(&mut self, found: &Vec<Coord>)
        requires
            old(self).wf(),
        ensures
            final(self).wf(),
            final(self).landmarks@ == record_all_spec(old(self).landmarks@, found@),
            final(self).seen@ == old(self).seen@,
    {
        let n = found.len();
        proof {
            assert(found@.subrange(0, n as int) =~= found@);
        }
        let mut i: usize = 0;
        while i < n
            invariant
                i <= n,
                n == found@.len(),
                self.wf(),
                self.seen@ == old(self).seen@,
                record_all_spec(old(self).landmarks@, found@) == record_all_spec(
                    self.landmarks@,
                    found@.subrange(i as int, n as int),
                ),
            decreases n - i,
        {
            let c = found[i];
            proof {
                let w = found@.subrange(i as int, n as int);
                assert(w.len() > 0);
                assert(w[0] == found@[i as int]);
                assert(w.subrange(1, w.len() as int) =~= found@.subrange(i as int + 1, n as int));
            }
            self.record_landmark(c);
            i = i + 1;
        }
        proof {
            assert(found@.subrange(n as int, n as int) =~= Seq::<Coord>::empty());
        }
    }

    /// Records that `c` was observed holding `kind`, idempotently.
    pub fn record_seen(&mut self, c: Coord, kind: ContentKind)
        ensures
            final(self).landmarks@ == old(self).landmarks@,
            final(self).seen@ == record_seen_spec(
                old(self).seen@,
                SeenTile { coord: c, kind: kind },
            ),
            seen_coord(final(self).seen@, c),
    {
        let t = SeenTile { coord: c, kind };
        let n = self.seen.len();
        let mut i: usize = 0;
        while i < n
            invariant
                i <= n,
                n == self.seen@.len(),
                self.landmarks@ == old(self).landmarks@,
                self.seen@ == old(self).seen@,
                t == (SeenTile { coord: c, kind: kind }),
                forall|j: int| 0 <= j < i ==> self.seen@[j] != t,
            decreases n - i,
        {
            if self.seen[i] == t {
                proof {
                    assert(self.seen@[i as int] == t);
                    assert(seen_has(self.seen@, t));
                    assert(self.seen@[i as int].coord == c);
                    assert(seen_coord(self.seen@, c));
                }
                return;
            }
            i = i + 1;
        }
        proof {
            assert(!seen_has(self.seen@, t));
        }
        self.seen.push(t);
        proof {
            assert(self.seen@ =~= record_seen_spec(old(self).seen@, t));
            let last = self.seen@.len() - 1;
            assert(self.seen@[last].coord == c);
            assert(seen_coord(self.seen@, c));
        }
    }

    /// Whether any observation of `c` is remembered, whatever it held.
    pub fn has_been_seen(&self, c: Coord) -> (r: bool)
        ensures
            r == seen_coord(self.seen@, c),
    {
        let n = self.seen.len();
        let mut i: usize = 0;
        while i < n
            invariant
                i <= n,
                n == self.seen@.len(),
                forall|j: int| 0 <= j < i ==> self.seen@[j].coord != c,
            decreases n - i,
        {
            if self.seen[i].coord == c {
                proof {
                    assert(self.seen@[i as int].coord == c);
                    assert(seen_coord(self.seen@, c));
                }
                return true;
            }
            i = i + 1;
        }
        false
    }

    /// Whether any free landmark is known at all.
    pub fn has_free_landmark(&self) -> (r: bool)
        ensures
            r == any_free(self.landmarks@),
    {
        let n = self.landmarks.len();
        let mut i: usize = 0;
        while i < n
            invariant
                i <= n,
                n == self.landmarks@.len(),
                forall|j: int| 0 <= j < i ==> self.landmarks@[j].status != LandmarkStatus::Free,
            decreases n - i,
        {
            if self.landmarks[i].status == LandmarkStatus::Free {
                proof {
                    assert(self.landmarks@[i as int].status == LandmarkStatus::Free);
                }
                return true;
            }
            i = i + 1;
        }
        false
    }

    /// The Manhattan-distance-nearest free landmark, or none when no landmark
    /// is free; ties go to the record encountered first in a linear scan.
    pub fn nearest_free(&self, from: Coord) -> (r: Option<Coord>)
        ensures
            match r {
                None => forall|i: int|
                    0 <= i < self.landmarks@.len() ==> self.landmarks@[i].status
                        != LandmarkStatus::Free,
                Some(c) => exists|i: int|
                    #[trigger] nearest_free_at(self.landmarks@, from, i) && self.landmarks@[i].coord
                        == c,
            },
    {
        let n = self.landmarks.len();
        let mut best: Option<Coord> = None;
        let mut best_dist: u64 = 0;
        let ghost mut best_idx: int = 0;
        let mut i: usize = 0;
        while i < n
            invariant
                i <= n,
                n == self.landmarks@.len(),
                best is None ==> forall|j: int|
                    0 <= j < i ==> self.landmarks@[j].status != LandmarkStatus::Free,
                best is Some ==> {
                    &&& 0 <= best_idx < i as int
                    &&& self.landmarks@[best_idx].status == LandmarkStatus::Free
                    &&& self.landmarks@[best_idx].coord == best->Some_0
                    &&& best_dist == manhattan_spec(best->Some_0, from)
                    &&& forall|j: int|
                        0 <= j < i && self.landmarks@[j].status == LandmarkStatus::Free
                            ==> best_dist <= manhattan_spec(self.landmarks@[j].coord, from)
                    &&& forall|j: int|
                        0 <= j < best_idx && self.landmarks@[j].status == LandmarkStatus::Free
                            ==> manhattan_spec(self.landmarks@[j].coord, from) > best_dist
                },
            decreases n - i,
        {
            let rec = self.landmarks[i];
            if rec.status == LandmarkStatus::Free {
                let d = manhattan(rec.coord, from);
                let take = match best {
                    None => true,
                    Some(_) => d < best_dist,
                };
                if take {
                    best = Some(rec.coord);
                    best_dist = d;
                    proof {
                        best_idx = i as int;
                    }
                }
            }
            i = i + 1;
        }
        proof {
            if best is Some {
                assert(nearest_free_at(self.landmarks@, from, best_idx));
            }
        }
        best
    }

    /// The known landmark with the largest cumulative deposit, or none while
    /// nothing was ever deposited; ties go to the record encountered first.
    /// The known landmark with the largest cumulative deposit, or none while
    /// nothing was ever deposited; ties go to the record encountered first.
    pub fn best_earning(&self) -> (r: Option<Coord>)
        ensures
            match r {
                None => forall|i: int|
                    0 <= i < self.landmarks@.len() ==> self.landmarks@[i].deposited == 0,
                Some(c) => exists|i: int|
                    #[trigger] best_earner_at(self.landmarks@, i) && self.landmarks@[i].coord == c,
            },
    {
        let n = self.landmarks.len();
        let mut best: Option<Coord> = None;
        let mut best_amount: u64 = 0;
        let ghost mut best_idx: int = 0;
        let mut i: usize = 0;
        while i < n
            invariant
                i <= n,
                n == self.landmarks@.len(),
                best is None ==> {
                    &&& best_amount == 0
                    &&& forall|j: int| 0 <= j < i ==> self.landmarks@[j].deposited == 0
                },
                best is Some ==> {
                    &&& 0 <= best_idx < i as int
                    &&& self.landmarks@[best_idx].coord == best->Some_0
                    &&& self.landmarks@[best_idx].deposited > 0
                    &&& best_amount == self.landmarks@[best_idx].deposited
                    &&& forall|j: int| 0 <= j < i ==> self.landmarks@[j].deposited <= best_amount
                    &&& forall|j: int|
                        0 <= j < best_idx ==> self.landmarks@[j].deposited < best_amount
                },
            decreases n - i,
        {
            let rec = self.landmarks[i];
            if rec.deposited > best_amount {
                best = Some(rec.coord);
                best_amount = rec.deposited;
                proof {
                    best_idx = i as int;
                }
            }
            i = i + 1;
        }
        proof {
            if best is Some {
                assert(best_earner_at(self.landmarks@, best_idx));
            }
        }
        best
    }

    /// Folds a sensor window into the memory: every landmark tile not already
    /// known is promoted into the free records, and every tile is remembered
    /// as seen. Pure bookkeeping, safe at any energy level.
    pub fn merge_perception(&mut self, window: &Vec<SeenTile>)
        requires
            old(self).wf(),
        ensures
            final(self).wf(),
            final(self).landmarks@ == merge_landmarks_spec(old(self).landmarks@, window@),
            final(self).seen@ == merge_seen_spec(old(self).seen@, window@),
    {
        let n = window.len();
        proof {
            assert(window@.subrange(0, n as int) =~= window@);
        }
        let mut i: usize = 0;
        while i < n
            invariant
                i <= n,
                n == window@.len(),
                self.wf(),
                merge_landmarks_spec(old(self).landmarks@, window@) == merge_landmarks_spec(
                    self.landmarks@,
                    window@.subrange(i as int, n as int),
                ),
                merge_seen_spec(old(self).seen@, window@) == merge_seen_spec(
                    self.seen@,
                    window@.subrange(i as int, n as int),
                ),
            decreases n - i,
        {
            let t = window[i];
            proof {
                let w = window@.subrange(i as int, n as int);
                assert(w.len() > 0);
                assert(w[0] == window@[i as int]);
                assert(w.subrange(1, w.len() as int) =~= window@.subrange(i as int + 1, n as int));
            }
            if t.kind == ContentKind::Bank {
                self.record_landmark(t.coord);
            }
            self.record_seen(t.coord, t.kind);
            i = i + 1;
        }
        proof {
            assert(window@.subrange(n as int, n as int) =~= Seq::<SeenTile>::empty());
        }
    }
}

/// When no record exists for a coordinate, its ledger entry reads zero.
proof fn false_has_coord_means_zero(s: Seq<LandmarkRecord>, c: Coord)
    requires
        !has_coord(s, c),
    ensures
        ledger_of_spec(s, c) == 0,
{
}

/// Flipping one record's status keeps every coordinate unique.
proof fn lemma_mark_filled_preserves_wf(s: Seq<LandmarkRecord>, c: Coord)
    requires
        wf_landmarks(s),
    ensures
        wf_landmarks(mark_filled_spec(s, c)),
{
    let s1 = mark_filled_spec(s, c);
    assert forall|a: int, b: int| 0 <= a < b < s1.len() implies s1[a].coord != s1[b].coord by {
        assert(s1[a].coord == s[a].coord);
        assert(s1[b].coord == s[b].coord);
    }
}

/// Two records with the same coordinate are the same record, once each
/// coordinate owns at most one.
proof fn lemma_unique_idx(s: Seq<LandmarkRecord>, a: int, b: int)
    requires
        wf_landmarks(s),
        0 <= a < s.len(),
        0 <= b < s.len(),
        s[a].coord == s[b].coord,
    ensures
        a == b,
{
    if a < b {
        assert(s[a].coord != s[b].coord);
    } else if b < a {
        assert(s[b].coord != s[a].coord);
    }
}

/// The consequences of a ledger update at `c`: the entry there grows by
/// `amount` while the status read at `c` is untouched (a fresh record is
/// free).
proof fn lemma_ledger_add_at(s: Seq<LandmarkRecord>, c: Coord, amount: u64)
    requires
        wf_landmarks(s),
        ledger_of_spec(s, c) + amount <= u64::MAX,
    ensures
        wf_landmarks(ledger_add_spec(s, c, amount)),
        ledger_of_spec(ledger_add_spec(s, c, amount), c) == ledger_of_spec(s, c) + amount,
        free_at(ledger_add_spec(s, c, amount), c) == (free_at(s, c) || !has_coord(s, c)),
        filled_at(ledger_add_spec(s, c, amount), c) == filled_at(s, c),
{
    let s1 = ledger_add_spec(s, c, amount);
    if has_coord(s, c) {
        let i = coord_idx(s, c);
        assert(0 <= i < s.len() && s[i].coord == c);
        assert(s1[i].coord == c && s1[i].status == s[i].status);
        assert forall|a: int, b: int| 0 <= a < b < s1.len() implies s1[a].coord != s1[b].coord by {
            assert(s1[a].coord == s[a].coord);
            assert(s1[b].coord == s[b].coord);
        }
        assert(has_coord(s1, c));
        let k = coord_idx(s1, c);
        assert(0 <= k < s1.len() && s1[k].coord == c);
        assert(s[k].coord == s1[k].coord);
        lemma_unique_idx(s, k, i);
        assert(ledger_of_spec(s1, c) == ledger_of_spec(s, c) + amount);
        if free_at(s, c) {
            let w = free_idx(s, c);
            assert(0 <= w < s.len() && s[w].coord == c && s[w].status == LandmarkStatus::Free);
            lemma_unique_idx(s, w, i);
            assert(s1[i].status == LandmarkStatus::Free);
            assert(free_at(s1, c));
        }
        if free_at(s1, c) {
            let w = free_idx(s1, c);
            assert(0 <= w < s1.len() && s1[w].coord == c && s1[w].status == LandmarkStatus::Free);
            assert(s[w].coord == s1[w].coord);
            lemma_unique_idx(s, w, i);
            assert(s[i].status == LandmarkStatus::Free);
            assert(free_at(s, c));
        }
        if filled_at(s, c) {
            let w = choose|w: int|
                0 <= w < s.len() && s[w].coord == c && s[w].status == LandmarkStatus::Filled;
            lemma_unique_idx(s, w, i);
            assert(s1[i].status == LandmarkStatus::Filled);
            assert(filled_at(s1, c));
        }
        if filled_at(s1, c) {
            let w = choose|w: int|
                0 <= w < s1.len() && s1[w].coord == c && s1[w].status == LandmarkStatus::Filled;
            assert(s[w].coord == s1[w].coord);
            lemma_unique_idx(s, w, i);
            assert(s[i].status == LandmarkStatus::Filled);
            assert(filled_at(s, c));
        }
    } else {
        let last = s.len() as int;
        assert(s1 =~= s.push(
            LandmarkRecord { coord: c, status: LandmarkStatus::Free, deposited: amount },
        ));
        assert forall|a: int, b: int| 0 <= a < b < s1.len() implies s1[a].coord != s1[b].coord by {
            if b == last {
                assert(s1[a] == s[a]);
            } else {
                assert(s1[a] == s[a] && s1[b] == s[b]);
            }
        }
        assert(s1[last].coord == c && s1[last].status == LandmarkStatus::Free);
        assert(has_coord(s1, c));
        let k = coord_idx(s1, c);
        assert(0 <= k < s1.len() && s1[k].coord == c);
        lemma_unique_idx(s1, k, last);
        assert(ledger_of_spec(s1, c) == amount);
        assert(free_at(s1, c));
        if filled_at(s1, c) {
            let w = choose|w: int|
                0 <= w < s1.len() && s1[w].coord == c && s1[w].status == LandmarkStatus::Filled;
            lemma_unique_idx(s1, w, last);
        }
        assert(!filled_at(s, c));
    }
}


/// A coordinate is never both a free and a filled landmark at once, whatever
/// sequence of recordings and fillings built the memory: every operation
/// keeps each coordinate owning a single record, and one record carries one
/// status.
pub proof fn lemma_status_exclusive(s: Seq<LandmarkRecord>, c: Coord)
    requires
        wf_landmarks(s),
    ensures
        !(free_at(s, c) && filled_at(s, c)),
{
    if free_at(s, c) && filled_at(s, c) {
        let i = free_idx(s, c);
        assert(0 <= i < s.len() && s[i].coord == c && s[i].status == LandmarkStatus::Free);
        let j = choose|j: int|
            0 <= j < s.len() && s[j].coord == c && s[j].status == LandmarkStatus::Filled;
        assert(s[i].coord == s[j].coord);
        lemma_unique_idx(s, i, j);
    }
}

/// Marking the same coordinate filled twice leaves the bookkeeping exactly
/// as one marking leaves it.
pub proof fn lemma_mark_filled_idempotent(s: Seq<LandmarkRecord>, c: Coord)
    requires
        wf_landmarks(s),
    ensures
        mark_filled_spec(mark_filled_spec(s, c), c) == mark_filled_spec(s, c),
{
    let s1 = mark_filled_spec(s, c);
    if free_at(s, c) {
        let i = free_idx(s, c);
        assert(0 <= i < s.len() && s[i].coord == c && s[i].status == LandmarkStatus::Free);
        if free_at(s1, c) {
            let j = free_idx(s1, c);
            assert(0 <= j < s1.len() && s1[j].coord == c && s1[j].status == LandmarkStatus::Free);
            assert(j != i);
            assert(s1[j] == s[j]);
            assert(s[j].coord == s[i].coord);
            lemma_unique_idx(s, i, j);
        }
        assert(!free_at(s1, c));
    } else {
        assert(s1 == s);
    }
}

} // verus!
