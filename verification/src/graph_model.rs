//! The mathematical model of the layout: what one row does to the lane
//! table, which node it yields, and what a whole history yields.

use vstd::prelude::*;
use crate::lane_model::LaneState;
use crate::lane_model::lemma_find_awaiting_none;
use crate::lane_model::lemma_find_awaiting_some;
use crate::lane_model::lemma_open_lane_wf;
use crate::lane_model::lemma_next_lane_range;

verus! {

/// What the layout reads of a commit: its id and its parents, first parent
/// first.
pub struct CommitRecord {
    pub id: Seq<char>,
    pub parents: Seq<Seq<char>>,
}

/// A branch name and the id of the commit it points at.
pub struct TipView {
    pub name: Seq<char>,
    pub commit_id: Seq<char>,
}

/// A line from a node's row to the lane of one of its parents.
pub struct ConnectionView {
    pub from_lane: nat,
    pub to_lane: nat,
    pub color: nat,
}

/// A lane that crosses a row without starting or ending there.
pub struct PassThroughView {
    pub lane: nat,
    pub color: nat,
}

/// The graph data of one row.
pub struct NodeView {
    pub lane: nat,
    pub color: nat,
    pub connections: Seq<ConnectionView>,
    pub pass_through: Seq<PassThroughView>,
    pub is_merge: bool,
    pub branch_names: Seq<Seq<char>>,
}

/// The names of the first `n` tips that point at `id`, in the order of the
/// tips.
pub open spec fn tip_names(tips: Seq<TipView>, id: Seq<char>, n: int) -> Seq<Seq<char>>
    decreases n,
{
    if n <= 0 {
        Seq::empty()
    } else {
        let before = tip_names(tips, id, n - 1);
        if tips[n - 1].commit_id == id {
            before.push(tips[n - 1].name)
        } else {
            before
        }
    }
}

/// The most colours that one row can issue: one for the node's own lane
/// where the commit has no parents, and otherwise at most one per parent
/// (the node's lane, which the first parent inherits, and one lane for each
/// further parent).
pub open spec fn color_demand(c: CommitRecord) -> nat {
    if c.parents.len() == 0 {
        1
    } else {
        c.parents.len()
    }
}

/// The sum of `color_demand` over the first `n` commits.
pub open spec fn total_color_demand(commits: Seq<CommitRecord>, n: int) -> nat
    decreases n,
{
    if n <= 0 {
        0
    } else {
        total_color_demand(commits, n - 1) + color_demand(commits[n - 1])
    }
}

/// The lane for `id` and the table once that lane is settled: the lowest lane
/// that awaits `id`, with the table unchanged, or else a newly opened lane.
pub open spec fn resolve(t: LaneState, id: Seq<char>) -> (LaneState, int) {
    match t.find_awaiting(id) {
        Some(lane) => (t, lane),
        None => (t.open_lane(id), t.next_lane()),
    }
}

/// The table and the connections after the parents `1 .. n` of a node in
/// lane `from` were each given a lane. The first parent is not handled here:
/// it stays in the node's lane.
pub open spec fn routed(t: LaneState, from: int, parents: Seq<Seq<char>>, n: int) -> (
    LaneState,
    Seq<ConnectionView>,
)
    decreases n,
{
    if n <= 1 {
        (t, Seq::empty())
    } else {
        let (before, connections) = routed(t, from, parents, n - 1);
        let (after, lane) = resolve(before, parents[n - 1]);
        (
            after,
            connections.push(
                ConnectionView {
                    from_lane: from as nat,
                    to_lane: lane as nat,
                    color: after.colors[lane],
                },
            ),
        )
    }
}

/// The connections from each of the first `n` lanes, other than `node_lane`,
/// that awaits `id`: those lanes run into the node.
pub open spec fn converging(t: LaneState, node_lane: int, id: Seq<char>, n: int) -> Seq<
    ConnectionView,
>
    decreases n,
{
    if n <= 0 {
        Seq::empty()
    } else {
        let before = converging(t, node_lane, id, n - 1);
        if n - 1 != node_lane && t.awaits(n - 1, id) {
            before.push(
                ConnectionView {
                    from_lane: (n - 1) as nat,
                    to_lane: node_lane as nat,
                    color: t.colors[n - 1],
                },
            )
        } else {
            before
        }
    }
}

/// Lane `i` crosses the row of a node for `id` in `node_lane`: it is another
/// lane, and it awaits some other commit.
pub open spec fn passes(t: LaneState, node_lane: int, id: Seq<char>, i: int) -> bool {
    i != node_lane && t.is_open(i) && !t.awaits(i, id)
}

/// Those of the first `n` lanes that cross the row, lowest first, each with
/// its colour.
pub open spec fn passing(t: LaneState, node_lane: int, id: Seq<char>, n: int) -> Seq<
    PassThroughView,
>
    decreases n,
{
    if n <= 0 {
        Seq::empty()
    } else {
        let before = passing(t, node_lane, id, n - 1);
        if passes(t, node_lane, id, n - 1) {
            before.push(PassThroughView { lane: (n - 1) as nat, color: t.colors[n - 1] })
        } else {
            before
        }
    }
}

/// One row: the table after commit `c` was placed, and the node it yields.
///
/// The node takes the lane that awaits it, or a newly opened one. A commit
/// with parents hands its lane on to its first parent and gives every
/// further parent a lane; a commit without parents closes its lane. Every
/// other lane that awaited the commit runs into the node and is closed.
pub open spec fn layout_row(t: LaneState, c: CommitRecord, names: Seq<Seq<char>>) -> (
    LaneState,
    NodeView,
) {
    let (settled, lane) = resolve(t, c.id);
    let color = settled.colors[lane];
    let pass_through = passing(settled, lane, c.id, settled.slots.len() as int);
    if c.parents.len() == 0 {
        (
            settled.free(lane).close_awaiting(lane, c.id),
            NodeView {
                lane: lane as nat,
                color,
                connections: Seq::empty(),
                pass_through,
                is_merge: false,
                branch_names: names,
            },
        )
    } else {
        let continued = settled.set_awaiting(lane, c.parents[0]);
        let (spread, extra) = routed(continued, lane, c.parents, c.parents.len() as int);
        let own = ConnectionView { from_lane: lane as nat, to_lane: lane as nat, color };
        (
            spread.close_awaiting(lane, c.id),
            NodeView {
                lane: lane as nat,
                color,
                connections: seq![own] + extra + converging(
                    spread,
                    lane,
                    c.id,
                    spread.slots.len() as int,
                ),
                pass_through,
                is_merge: c.parents.len() > 1,
                branch_names: names,
            },
        )
    }
}

/// The table after the first `n` commits were placed, starting from the
/// empty table.
pub open spec fn layout_state(commits: Seq<CommitRecord>, n: int) -> LaneState
    decreases n,
{
    if n <= 0 {
        LaneState::empty()
    } else {
        layout_row(layout_state(commits, n - 1), commits[n - 1], Seq::empty()).0
    }
}

/// The node of commit `i` of a history.
pub open spec fn layout_node(commits: Seq<CommitRecord>, tips: Seq<TipView>, i: int) -> NodeView {
    layout_row(
        layout_state(commits, i),
        commits[i],
        tip_names(tips, commits[i].id, tips.len() as int),
    ).1
}

/// The graph of a history: one node per commit, in the order of the commits.
pub open spec fn layout(commits: Seq<CommitRecord>, tips: Seq<TipView>) -> Seq<NodeView> {
    Seq::new(commits.len(), |i: int| layout_node(commits, tips, i))
}

/// Settling a lane keeps the table well-formed, issues at most one colour,
/// and touches no lane but the one it returns.
pub proof fn lemma_resolve(t: LaneState, id: Seq<char>)
    requires
        t.wf(),
    ensures
        resolve(t, id).0.wf(),
        resolve(t, id).0.awaits(resolve(t, id).1, id),
        resolve(t, id).0.slots.len() >= t.slots.len(),
        t.next_color <= resolve(t, id).0.next_color <= t.next_color + 1,
        forall|i: int|
            0 <= i < t.slots.len() && i != resolve(t, id).1 ==> resolve(t, id).0.slots[i]
                == t.slots[i] && resolve(t, id).0.colors[i] == t.colors[i],
        forall|i: int|
            t.is_open(i) ==> resolve(t, id).0.slots[i] == t.slots[i] && resolve(t, id).0.colors[i]
                == t.colors[i],
        resolve(t, id).0.slots.len() == t.slots.len() || (resolve(t, id).0.slots.len()
            == t.slots.len() + 1 && resolve(t, id).1 == t.slots.len()),
        t.is_open(resolve(t, id).1) ==> resolve(t, id).0 == t,
        !t.is_open(resolve(t, id).1) ==> resolve(t, id).0.colors[resolve(t, id).1] == t.next_color
            && resolve(t, id).0.next_color == t.next_color + 1,
{
    match t.find_awaiting(id) {
        Some(lane) => {
            lemma_find_awaiting_none(t, id);
            let w = choose|i: int| t.awaits(i, id);
            lemma_find_awaiting_some(t, id, w);
        },
        None => {
            lemma_open_lane_wf(t, id);
            lemma_next_lane_range(t);
        },
    }
}

/// Routing the further parents keeps the table well-formed, issues at most
/// one colour per parent routed, and yields one connection per parent
/// routed, each to a lane of the table.
pub proof fn lemma_routed(t: LaneState, from: int, parents: Seq<Seq<char>>, n: int)
    requires
        t.wf(),
        n <= parents.len(),
    ensures
        routed(t, from, parents, n).0.wf(),
        routed(t, from, parents, n).0.slots.len() >= t.slots.len(),
        t.next_color <= routed(t, from, parents, n).0.next_color,
        routed(t, from, parents, n).0.next_color <= t.next_color + if n <= 1 {
            0
        } else {
            n - 1
        },
        routed(t, from, parents, n).1.len() == if n <= 1 {
            0
        } else {
            n - 1
        },
        forall|i: int|
            t.is_open(i) ==> routed(t, from, parents, n).0.slots[i] == t.slots[i] && routed(
                t,
                from,
                parents,
                n,
            ).0.colors[i] == t.colors[i],
    decreases n,
{
    if n > 1 {
        lemma_routed(t, from, parents, n - 1);
        lemma_resolve(routed(t, from, parents, n - 1).0, parents[n - 1]);
    }
}

/// Placing a commit keeps the table well-formed and issues at most
/// `color_demand` colours.
pub proof fn lemma_layout_row(t: LaneState, c: CommitRecord, names: Seq<Seq<char>>)
    requires
        t.wf(),
    ensures
        layout_row(t, c, names).0.wf(),
        layout_row(t, c, names).0.slots.len() >= t.slots.len(),
        t.next_color <= layout_row(t, c, names).0.next_color <= t.next_color + color_demand(c),
        layout_row(t, c, names).0 == layout_row(t, c, Seq::empty()).0,
{
    lemma_resolve(t, c.id);
    let (settled, lane) = resolve(t, c.id);
    if c.parents.len() > 0 {
        let continued = settled.set_awaiting(lane, c.parents[0]);
        lemma_routed(continued, lane, c.parents, c.parents.len() as int);
    }
}

/// The demand of a longer prefix is at least that of a shorter one.
pub proof fn lemma_total_color_demand_grows(commits: Seq<CommitRecord>, a: int, b: int)
    requires
        a <= b,
    ensures
        total_color_demand(commits, a) <= total_color_demand(commits, b),
    decreases b - a,
{
    if a < b {
        lemma_total_color_demand_grows(commits, a, b - 1);
    }
}

/// Every table on the way through a history is well-formed, and by row `n`
/// no more colours were issued than the first `n` commits can demand.
pub proof fn lemma_layout_state(commits: Seq<CommitRecord>, n: int)
    ensures
        layout_state(commits, n).wf(),
        layout_state(commits, n).next_color <= total_color_demand(commits, n),
    decreases n,
{
    if n > 0 {
        lemma_layout_state(commits, n - 1);
        lemma_layout_row(layout_state(commits, n - 1), commits[n - 1], Seq::empty());
    }
}

} // verus!
