//! The lane table: a dense, growable array of lane slots with a colour per
//! lane and the counter that colours are drawn from.

use vstd::prelude::*;
use crate::lane_model::LaneState;
use crate::lane_model::lemma_find_awaiting_is;
use crate::lane_model::lemma_find_awaiting_none;
use crate::lane_model::lemma_next_lane_is;
use crate::lane_model::lemma_next_lane_range;
use crate::text::text_of;

verus! {

/// The lane table of one layout run.
pub struct LaneTable {
    slots: Vec<Option<String>>,
    colors: Vec<usize>,
    next_color: usize,
}

impl View for LaneTable {
    type V = LaneState;

    closed spec fn view(&self) -> LaneState {
        LaneState {
            slots: Seq::new(self.slots@.len(), |i: int| text_of(self.slots@[i])),
            colors: Seq::new(self.colors@.len(), |i: int| self.colors@[i] as nat),
            next_color: self.next_color as nat,
        }
    }
}

impl LaneTable {
    /// A table with no lanes and no colour issued.
    pub fn new() -> (table: LaneTable)
        ensures
            table@ == LaneState::empty(),
            table@.wf(),
    {
        let table = LaneTable { slots: Vec::new(), colors: Vec::new(), next_color: 0 };
        assert(table@.slots =~= LaneState::empty().slots);
        assert(table@.colors =~= LaneState::empty().colors);
        table
    }

    /// The number of lanes, empty ones included.
    pub fn lane_count(&self) -> (n: usize)
        ensures
            n == self@.len(),
    {
        self.slots.len()
    }

    /// The colour that the next opening will issue.
    pub fn next_color(&self) -> (color: usize)
        ensures
            color == self@.next_color,
    {
        self.next_color
    }

    /// Whether lane `lane` awaits some commit.
    pub fn is_open(&self, lane: usize) -> (open: bool)
        requires
            lane < self@.len(),
        ensures
            open == self@.is_open(lane as int),
    {
        self.slots[lane].is_some()
    }

    /// Whether lane `lane` awaits `id`.
    pub fn awaits(&self, lane: usize, id: &String) -> (hit: bool)
        requires
            lane < self@.len(),
        ensures
            hit == self@.awaits(lane as int, id@),
    {
        match &self.slots[lane] {
            Some(awaited) => *awaited == *id,
            None => false,
        }
    }

    /// The lowest lane that awaits `id`, if any lane does.
    pub fn find_awaiting(&self, id: &String) -> (found: Option<usize>)
        ensures
            self@.find_awaiting(id@) == match found {
                Some(lane) => Some(lane as int),
                None => None,
            },
    {
        let mut i: usize = 0;
        while i < self.slots.len()
            invariant
                i <= self.slots.len(),
                forall|j: int| 0 <= j < i ==> !self@.awaits(j, id@),
            decreases self.slots.len() - i,
        {
            if self.awaits(i, id) {
                proof {
                    lemma_find_awaiting_is(self@, id@, i as int);
                }
                return Some(i);
            }
            i += 1;
        }
        proof {
            lemma_find_awaiting_none(self@, id@);
        }
        None
    }

    /// Opens a lane for `awaiting_id`: the lowest empty lane, or a new lane
    /// at the end where none is empty. The lane receives the next unused
    /// colour. Returns the lane and its colour.
    pub fn open_or_reuse(&mut self, awaiting_id: String) -> (opened: (usize, usize))
        requires
            old(self)@.wf(),
            old(self)@.next_color < usize::MAX,
        ensures
            final(self)@ == old(self)@.open_lane(awaiting_id@),
            final(self)@.wf(),
            opened.0 == old(self)@.next_lane(),
            opened.1 == old(self)@.next_color,
    {
        let color = self.next_color;
        let mut i: usize = 0;
        while i < self.slots.len() && self.slots[i].is_some()
            invariant
                i <= self.slots.len(),
                *self == *old(self),
                forall|j: int| 0 <= j < i ==> !self@.is_vacant(j),
            decreases self.slots.len() - i,
        {
            i += 1;
        }
        proof {
            if i < self.slots.len() {
                lemma_next_lane_is(self@, i as int);
            } else {
                lemma_next_lane_range(self@);
            }
        }
        if i < self.slots.len() {
            self.slots[i] = Some(awaiting_id);
            self.colors[i] = color;
        } else {
            self.slots.push(Some(awaiting_id));
            self.colors.push(color);
        }
        self.next_color = color + 1;
        proof {
            let after = old(self)@.open_lane(awaiting_id@);
            assert(self@.slots =~= after.slots);
            assert(self@.colors =~= after.colors);
            crate::lane_model::lemma_open_lane_wf(old(self)@, awaiting_id@);
        }
        (i, color)
    }

    /// Sets lane `lane` to await `id`. The lane keeps its colour.
    pub fn set_awaiting(&mut self, lane: usize, id: String)
        requires
            lane < old(self)@.len(),
        ensures
            final(self)@ == old(self)@.set_awaiting(lane as int, id@),
            old(self)@.wf() ==> final(self)@.wf(),
    {
        self.slots[lane] = Some(id);
        proof {
            let after = old(self)@.set_awaiting(lane as int, id@);
            assert(self@.slots =~= after.slots);
            assert(self@.colors =~= after.colors);
        }
    }

    /// Empties lane `lane`, so that a later opening may take it.
    pub fn free(&mut self, lane: usize)
        requires
            lane < old(self)@.len(),
        ensures
            final(self)@ == old(self)@.free(lane as int),
            old(self)@.wf() ==> final(self)@.wf(),
    {
        self.slots[lane] = None;
        proof {
            let after = old(self)@.free(lane as int);
            assert(self@.slots =~= after.slots);
            assert(self@.colors =~= after.colors);
        }
    }

    /// The colour that lane `lane` received when it was last opened.
    pub fn color_of(&self, lane: usize) -> (color: usize)
        requires
            self@.wf(),
            lane < self@.len(),
        ensures
            color == self@.colors[lane as int],
    {
        self.colors[lane]
    }
}

} // verus!
