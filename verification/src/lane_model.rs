//! The mathematical model of the lane table.
//!
//! A lane is a column of the diagram. At any instant it is either empty or
//! awaits one commit id: the next commit expected to land in that column.
//! Every lane carries the colour it was given when it was last opened, and
//! colours are drawn from a counter that only grows.

use vstd::prelude::*;

verus! {

/// The state of the lane table between two rows of the diagram.
pub struct LaneState {
    /// For each lane, the id it awaits, or `None` where the lane is empty.
    pub slots: Seq<Option<Seq<char>>>,
    /// For each lane, the colour it received when it was last opened.
    pub colors: Seq<nat>,
    /// The next colour to hand out; every colour below it has been issued.
    pub next_color: nat,
}

impl LaneState {
    /// The table before the first row: no lanes, no colour issued.
    pub open spec fn empty() -> LaneState {
        LaneState { slots: Seq::empty(), colors: Seq::empty(), next_color: 0 }
    }

    /// The number of lanes, empty ones included.
    pub open spec fn len(self) -> nat {
        self.slots.len()
    }

    /// Lane `i` exists and awaits `id`.
    pub open spec fn awaits(self, i: int, id: Seq<char>) -> bool {
        0 <= i < self.slots.len() && self.slots[i] == Some(id)
    }

    /// Lane `i` exists and awaits some commit.
    pub open spec fn is_open(self, i: int) -> bool {
        0 <= i < self.slots.len() && self.slots[i] is Some
    }

    /// Lane `i` exists and is empty.
    pub open spec fn is_vacant(self, i: int) -> bool {
        0 <= i < self.slots.len() && self.slots[i] is None
    }

    /// Every lane has a colour, every colour held by a lane has been issued,
    /// and no two lanes hold the same colour.
    pub open spec fn wf(self) -> bool {
        &&& self.slots.len() == self.colors.len()
        &&& forall|i: int| 0 <= i < self.colors.len() ==> #[trigger] self.colors[i] < self.next_color
        &&& forall|i: int, j: int|
            0 <= i < j < self.colors.len() ==> #[trigger] self.colors[i] != #[trigger] self.colors[j]
    }

    /// `i` is the lowest lane that awaits `id`.
    pub open spec fn is_first_awaiting(self, i: int, id: Seq<char>) -> bool {
        self.awaits(i, id) && forall|j: int| 0 <= j < i ==> !self.awaits(j, id)
    }

    /// The lowest lane that awaits `id`, if any lane does.
    pub open spec fn find_awaiting(self, id: Seq<char>) -> Option<int> {
        if exists|i: int| self.is_first_awaiting(i, id) {
            Some(choose|i: int| self.is_first_awaiting(i, id))
        } else {
            None
        }
    }

    /// `i` is the lowest empty lane.
    pub open spec fn is_first_vacant(self, i: int) -> bool {
        self.is_vacant(i) && forall|j: int| 0 <= j < i ==> !self.is_vacant(j)
    }

    /// The lane that the next opening takes: the lowest empty lane, or a new
    /// lane at the end where none is empty.
    pub open spec fn next_lane(self) -> int {
        if exists|i: int| self.is_first_vacant(i) {
            choose|i: int| self.is_first_vacant(i)
        } else {
            self.slots.len() as int
        }
    }

    /// The table after lane `next_lane()` was opened for `id` with a fresh
    /// colour.
    pub open spec fn open_lane(self, id: Seq<char>) -> LaneState {
        let lane = self.next_lane();
        if lane < self.slots.len() {
            LaneState {
                slots: self.slots.update(lane, Some(id)),
                colors: self.colors.update(lane, self.next_color),
                next_color: self.next_color + 1,
            }
        } else {
            LaneState {
                slots: self.slots.push(Some(id)),
                colors: self.colors.push(self.next_color),
                next_color: self.next_color + 1,
            }
        }
    }

    /// The table after lane `i` was set to await `id`; its colour stays.
    pub open spec fn set_awaiting(self, i: int, id: Seq<char>) -> LaneState {
        LaneState { slots: self.slots.update(i, Some(id)), ..self }
    }

    /// The table after lane `i` was emptied; its colour entry stays behind,
    /// unused until the lane is opened again.
    pub open spec fn free(self, i: int) -> LaneState {
        LaneState { slots: self.slots.update(i, None), ..self }
    }

    /// The table after every lane but `keep` that awaits `id` was emptied.
    pub open spec fn close_awaiting(self, keep: int, id: Seq<char>) -> LaneState {
        LaneState {
            slots: Seq::new(
                self.slots.len(),
                |i: int|
                    if i != keep && self.slots[i] == Some(id) {
                        None
                    } else {
                        self.slots[i]
                    },
            ),
            ..self
        }
    }
}

/// A lane that awaits `id` has a lowest such lane, and `find_awaiting`
/// returns it.
pub proof fn lemma_find_awaiting_some(t: LaneState, id: Seq<char>, i: int)
    requires
        t.awaits(i, id),
    ensures
        t.find_awaiting(id) is Some,
        t.is_first_awaiting(t.find_awaiting(id).unwrap(), id),
        t.find_awaiting(id).unwrap() <= i,
    decreases i,
{
    if t.is_first_awaiting(i, id) {
    } else {
        let j = choose|j: int| 0 <= j < i && t.awaits(j, id);
        lemma_find_awaiting_some(t, id, j);
    }
}

/// `find_awaiting` returns `Some(i)` exactly for the lowest lane awaiting
/// `id`.
pub proof fn lemma_find_awaiting_is(t: LaneState, id: Seq<char>, i: int)
    requires
        t.is_first_awaiting(i, id),
    ensures
        t.find_awaiting(id) == Some(i),
{
    let c = t.find_awaiting(id).unwrap();
    assert(t.is_first_awaiting(c, id));
    if c < i {
        assert(!t.awaits(c, id));
    }
    if i < c {
        assert(!t.awaits(i, id));
    }
}

/// `find_awaiting` returns `None` exactly when no lane awaits `id`.
pub proof fn lemma_find_awaiting_none(t: LaneState, id: Seq<char>)
    ensures
        t.find_awaiting(id) is None <==> forall|i: int| !t.awaits(i, id),
{
    if t.find_awaiting(id) is None {
        assert forall|i: int| !t.awaits(i, id) by {
            if t.awaits(i, id) {
                lemma_find_awaiting_some(t, id, i);
            }
        }
    } else {
        let c = t.find_awaiting(id).unwrap();
        assert(t.is_first_awaiting(c, id));
        assert(t.awaits(c, id));
    }
}

/// An empty lane has a lowest empty lane below or at it.
pub proof fn lemma_first_vacant_exists(t: LaneState, i: int)
    requires
        t.is_vacant(i),
    ensures
        t.is_first_vacant(t.next_lane()),
        t.next_lane() <= i,
    decreases i,
{
    if t.is_first_vacant(i) {
        let c = t.next_lane();
        assert(t.is_first_vacant(c));
        if i < c {
            assert(!t.is_vacant(i));
        }
    } else {
        let j = choose|j: int| 0 <= j < i && t.is_vacant(j);
        lemma_first_vacant_exists(t, j);
    }
}

/// `next_lane` is the lowest empty lane where one exists.
pub proof fn lemma_next_lane_is(t: LaneState, i: int)
    requires
        t.is_first_vacant(i),
    ensures
        t.next_lane() == i,
{
    let c = t.next_lane();
    assert(t.is_first_vacant(c));
    if c < i {
        assert(!t.is_vacant(c));
    }
    if i < c {
        assert(!t.is_vacant(i));
    }
}

/// `next_lane` is one past the last lane where no lane is empty, and an
/// empty lane otherwise.
pub proof fn lemma_next_lane_range(t: LaneState)
    ensures
        0 <= t.next_lane() <= t.slots.len(),
        t.next_lane() < t.slots.len() ==> t.is_first_vacant(t.next_lane()),
        t.next_lane() == t.slots.len() <==> forall|i: int| !t.is_vacant(i),
{
    if exists|i: int| t.is_first_vacant(i) {
        let c = t.next_lane();
        assert(t.is_first_vacant(c));
        assert(t.is_vacant(c));
    } else {
        assert forall|i: int| !t.is_vacant(i) by {
            if t.is_vacant(i) {
                lemma_first_vacant_exists(t, i);
            }
        }
    }
}

/// Opening a lane keeps the table well-formed.
pub proof fn lemma_open_lane_wf(t: LaneState, id: Seq<char>)
    requires
        t.wf(),
    ensures
        t.open_lane(id).wf(),
        t.open_lane(id).awaits(t.next_lane(), id),
        t.open_lane(id).colors[t.next_lane()] == t.next_color,
        t.open_lane(id).slots.len() >= t.slots.len(),
        forall|i: int|
            0 <= i < t.slots.len() && i != t.next_lane() ==> t.open_lane(id).slots[i]
                == t.slots[i] && t.open_lane(id).colors[i] == t.colors[i],
{
    lemma_next_lane_range(t);
}

} // verus!
