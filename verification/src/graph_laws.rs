//! What holds of every layout: colours tell open lanes apart, a lane keeps
//! its colour while it stays open, and a lane that is opened again gets a
//! colour that no lane has held before.

use vstd::prelude::*;
use crate::graph_model::CommitRecord;
use crate::graph_model::ConnectionView;
use crate::graph_model::NodeView;
use crate::graph_model::PassThroughView;
use crate::graph_model::TipView;
use crate::graph_model::converging;
use crate::graph_model::layout_node;
use crate::graph_model::passes;
use crate::graph_model::passing;
use crate::graph_model::tip_names;
use crate::lane_model::lemma_find_awaiting_is;
use crate::lane_model::lemma_find_awaiting_none;
use crate::lane_model::lemma_next_lane_range;
use crate::graph_model::layout_row;
use crate::graph_model::layout_state;
use crate::graph_model::lemma_layout_row;
use crate::graph_model::lemma_layout_state;
use crate::graph_model::lemma_resolve;
use crate::graph_model::lemma_routed;
use crate::graph_model::resolve;
use crate::graph_model::routed;
use crate::lane_model::LaneState;

verus! {

/// In a well-formed table no two open lanes share a colour.
pub proof fn lemma_open_lanes_differ_in_color(t: LaneState, i: int, j: int)
    requires
        t.wf(),
        t.is_open(i),
        t.is_open(j),
        i != j,
    ensures
        t.colors[i] != t.colors[j],
{
    if i < j {
        assert(t.colors[i] != t.colors[j]);
    } else {
        assert(t.colors[j] != t.colors[i]);
    }
}

/// After any number of rows of any history, no two lanes that are open at
/// the same time share a colour.
pub proof fn lemma_layout_colors_distinct(commits: Seq<CommitRecord>, n: int, i: int, j: int)
    requires
        layout_state(commits, n).is_open(i),
        layout_state(commits, n).is_open(j),
        i != j,
    ensures
        layout_state(commits, n).colors[i] != layout_state(commits, n).colors[j],
{
    lemma_layout_state(commits, n);
    lemma_open_lanes_differ_in_color(layout_state(commits, n), i, j);
}

/// Routing the further parents gives a colour only to lanes that were not
/// open, and that colour had not been issued before.
pub proof fn lemma_routed_fresh(t: LaneState, from: int, parents: Seq<Seq<char>>, n: int)
    requires
        t.wf(),
        n <= parents.len(),
    ensures
        forall|i: int|
            0 <= i < routed(t, from, parents, n).0.slots.len() && !t.is_open(i) && routed(
                t,
                from,
                parents,
                n,
            ).0.is_open(i) ==> routed(t, from, parents, n).0.colors[i] >= t.next_color,
    decreases n,
{
    if n > 1 {
        let before = routed(t, from, parents, n - 1).0;
        lemma_routed_fresh(t, from, parents, n - 1);
        lemma_routed(t, from, parents, n - 1);
        lemma_resolve(before, parents[n - 1]);
    }
}

/// A lane that is open before a row keeps its colour through the row.
pub proof fn lemma_row_keeps_color(t: LaneState, c: CommitRecord, i: int)
    requires
        t.wf(),
        t.is_open(i),
    ensures
        layout_row(t, c, Seq::empty()).0.colors[i] == t.colors[i],
{
    lemma_resolve(t, c.id);
    let (settled, lane) = resolve(t, c.id);
    if c.parents.len() > 0 {
        let continued = settled.set_awaiting(lane, c.parents[0]);
        assert(continued.is_open(i));
        lemma_routed(continued, lane, c.parents, c.parents.len() as int);
    }
}

/// A lane's colour does not change while the lane stays open: where lane
/// `i` is open after each of the rows `a ..= b`, it has the same colour
/// after row `b` as after row `a`.
pub proof fn lemma_layout_color_stable(commits: Seq<CommitRecord>, a: int, b: int, i: int)
    requires
        0 <= a <= b,
        forall|n: int| a <= n <= b ==> layout_state(commits, n).is_open(i),
    ensures
        layout_state(commits, b).colors[i] == layout_state(commits, a).colors[i],
    decreases b - a,
{
    if a < b {
        lemma_layout_color_stable(commits, a, b - 1, i);
        lemma_layout_state(commits, b - 1);
        assert(layout_state(commits, b - 1).is_open(i));
        lemma_row_keeps_color(layout_state(commits, b - 1), commits[b - 1], i);
    }
}

/// A lane that a row opens gets a colour that had not been issued before
/// the row.
pub proof fn lemma_row_opens_fresh(t: LaneState, c: CommitRecord, i: int)
    requires
        t.wf(),
        !t.is_open(i),
        layout_row(t, c, Seq::empty()).0.is_open(i),
    ensures
        layout_row(t, c, Seq::empty()).0.colors[i] >= t.next_color,
{
    lemma_resolve(t, c.id);
    let (settled, lane) = resolve(t, c.id);
    if c.parents.len() > 0 {
        let continued = settled.set_awaiting(lane, c.parents[0]);
        let spread = routed(continued, lane, c.parents, c.parents.len() as int).0;
        lemma_routed(continued, lane, c.parents, c.parents.len() as int);
        lemma_routed_fresh(continued, lane, c.parents, c.parents.len() as int);
        assert(spread.is_open(i));
        if continued.is_open(i) {
            assert(spread.colors[i] == continued.colors[i]);
        }
    }
}

/// The colour counter never goes back.
pub proof fn lemma_layout_counter_grows(commits: Seq<CommitRecord>, a: int, b: int)
    requires
        a <= b,
    ensures
        layout_state(commits, a).next_color <= layout_state(commits, b).next_color,
    decreases b - a,
{
    if a < b {
        lemma_layout_counter_grows(commits, a, b - 1);
        if b > 0 {
            lemma_layout_state(commits, b - 1);
            lemma_layout_row(layout_state(commits, b - 1), commits[b - 1], Seq::empty());
        }
    }
}

/// Reusing a lane yields a new colour: where lane `i` is not open after row
/// `n` and open after row `n + 1`, its colour is greater than every colour
/// that any lane held after any of the rows up to `n`.
pub proof fn lemma_layout_reuse_gets_new_color(
    commits: Seq<CommitRecord>,
    n: int,
    i: int,
    m: int,
    j: int,
)
    requires
        0 <= m <= n,
        !layout_state(commits, n).is_open(i),
        layout_state(commits, n + 1).is_open(i),
        0 <= j < layout_state(commits, m).colors.len(),
    ensures
        layout_state(commits, m).colors[j] < layout_state(commits, n + 1).colors[i],
{
    lemma_layout_state(commits, n);
    lemma_layout_state(commits, m);
    lemma_layout_counter_grows(commits, m, n);
    lemma_row_opens_fresh(layout_state(commits, n), commits[n], i);
}

/// A history is a single line: every commit but the last has exactly one
/// parent, which is the commit after it, and the last has none.
pub open spec fn is_linear_chain(commits: Seq<CommitRecord>) -> bool {
    &&& forall|i: int|
        0 <= i < commits.len() - 1 ==> (#[trigger] commits[i]).parents.len() == 1
            && commits[i].parents[0] == commits[i + 1].id
    &&& commits.len() > 0 ==> commits.last().parents.len() == 0
}

/// The table with a single lane of colour 0.
pub open spec fn single_lane(slot: Option<Seq<char>>) -> LaneState {
    LaneState { slots: seq![slot], colors: seq![0nat], next_color: 1 }
}

/// A commit with at most one parent, placed on the empty table or on a
/// single lane that awaits it, lands in lane 0 with colour 0 and leaves a
/// single lane behind.
pub proof fn lemma_row_on_single_lane(t: LaneState, c: CommitRecord, names: Seq<Seq<char>>)
    requires
        t == LaneState::empty() || t == single_lane(Some(c.id)),
        c.parents.len() <= 1,
    ensures
        layout_row(t, c, names).0 == single_lane(
            if c.parents.len() == 1 {
                Some(c.parents[0])
            } else {
                None
            },
        ),
        layout_row(t, c, names).1 == (NodeView {
            lane: 0,
            color: 0,
            connections: if c.parents.len() == 1 {
                seq![ConnectionView { from_lane: 0, to_lane: 0, color: 0 }]
            } else {
                Seq::empty()
            },
            pass_through: Seq::empty(),
            is_merge: false,
            branch_names: names,
        }),
{
    let settled = single_lane(Some(c.id));
    if t == LaneState::empty() {
        lemma_find_awaiting_none(t, c.id);
        lemma_next_lane_range(t);
        assert(t.open_lane(c.id).slots =~= settled.slots);
        assert(t.open_lane(c.id).colors =~= settled.colors);
    } else {
        lemma_find_awaiting_is(t, c.id, 0);
    }
    assert(resolve(t, c.id) == (settled, 0int));
    assert(passing(settled, 0, c.id, 0) =~= Seq::empty());
    assert(passing(settled, 0, c.id, 1) =~= Seq::empty());
    if c.parents.len() == 1 {
        let continued = settled.set_awaiting(0, c.parents[0]);
        assert(routed(continued, 0, c.parents, 1) == (continued, Seq::<ConnectionView>::empty()));
        assert(converging(continued, 0, c.id, 0) =~= Seq::empty());
        assert(converging(continued, 0, c.id, 1) =~= Seq::empty());
        let after = continued.close_awaiting(0, c.id);
        assert(after.slots =~= single_lane(Some(c.parents[0])).slots);
        assert(continued.colors =~= seq![0nat]);
        let own = ConnectionView { from_lane: 0, to_lane: 0, color: 0 };
        assert(seq![own] + Seq::<ConnectionView>::empty() + Seq::<ConnectionView>::empty()
            =~= seq![own]);
    } else {
        let after = settled.free(0).close_awaiting(0, c.id);
        assert(after.slots =~= single_lane(None).slots);
        assert(settled.free(0).colors =~= seq![0nat]);
    }
}

/// What the table holds on the way through a linear chain: nothing before
/// the first row, then a single lane that awaits the next commit, and a
/// single empty lane once the last commit is placed.
pub proof fn lemma_linear_chain_state(commits: Seq<CommitRecord>, n: int)
    requires
        is_linear_chain(commits),
        0 <= n <= commits.len(),
    ensures
        layout_state(commits, n) == if n == 0 {
            LaneState::empty()
        } else if n < commits.len() {
            single_lane(Some(commits[n].id))
        } else {
            single_lane(None)
        },
    decreases n,
{
    if n > 0 {
        lemma_linear_chain_state(commits, n - 1);
        let c = commits[n - 1];
        if n < commits.len() {
            assert(c.parents.len() == 1 && c.parents[0] == commits[n].id);
        } else {
            assert(c == commits.last());
        }
        lemma_row_on_single_lane(layout_state(commits, n - 1), c, Seq::empty());
    }
}

/// In a linear chain every node has lane 0 and colour 0 and no pass-through
/// lane; every node but the last has the one connection from lane 0 to lane
/// 0 in colour 0, and the last has none.
pub proof fn lemma_linear_chain(commits: Seq<CommitRecord>, tips: Seq<TipView>, i: int)
    requires
        is_linear_chain(commits),
        0 <= i < commits.len(),
    ensures
        layout_node(commits, tips, i).lane == 0,
        layout_node(commits, tips, i).color == 0,
        layout_node(commits, tips, i).pass_through == Seq::<PassThroughView>::empty(),
        layout_node(commits, tips, i).connections == if i < commits.len() - 1 {
            seq![ConnectionView { from_lane: 0, to_lane: 0, color: 0 }]
        } else {
            Seq::empty()
        },
        !layout_node(commits, tips, i).is_merge,
{
    lemma_linear_chain_state(commits, i);
    let c = commits[i];
    if i < commits.len() - 1 {
        assert(c.parents.len() == 1);
    } else {
        assert(c == commits.last());
    }
    lemma_row_on_single_lane(
        layout_state(commits, i),
        c,
        tip_names(tips, c.id, tips.len() as int),
    );
}

/// Two commits without parents that no lane awaits, placed one after the
/// other, each open a lane of their own and get different colours: the
/// next two colours of the counter. Neither has a connection.
pub proof fn lemma_independent_roots(t: LaneState, a: CommitRecord, b: CommitRecord)
    requires
        t.wf(),
        a.parents.len() == 0,
        b.parents.len() == 0,
        forall|i: int| !t.awaits(i, a.id),
        forall|i: int| !t.awaits(i, b.id),
    ensures
        ({
            let (after_a, node_a) = layout_row(t, a, Seq::empty());
            let (after_b, node_b) = layout_row(after_a, b, Seq::empty());
            &&& node_a.lane == t.next_lane()
            &&& node_a.color == t.next_color
            &&& node_a.connections.len() == 0
            &&& node_b.lane == after_a.next_lane()
            &&& node_b.color == t.next_color + 1
            &&& node_b.connections.len() == 0
            &&& node_a.color != node_b.color
        }),
{
    lemma_find_awaiting_none(t, a.id);
    lemma_resolve(t, a.id);
    lemma_next_lane_range(t);
    let lane = t.next_lane();
    let opened = t.open_lane(a.id);
    let after_a = layout_row(t, a, Seq::empty()).0;
    assert(after_a == opened.free(lane).close_awaiting(lane, a.id));
    assert forall|i: int| !after_a.awaits(i, b.id) by {
        if 0 <= i < after_a.slots.len() && i != lane {
            assert(opened.slots[i] == t.slots[i]);
            assert(!t.awaits(i, b.id));
        }
    }
    lemma_find_awaiting_none(after_a, b.id);
    lemma_layout_row(t, a, Seq::empty());
    lemma_resolve(after_a, b.id);
}

/// Each connection that routing yields starts at the node's lane and ends
/// at a lane that awaits the parent it was made for, in that lane's colour.
pub proof fn lemma_routed_targets(t: LaneState, from: int, parents: Seq<Seq<char>>, n: int)
    requires
        t.wf(),
        0 <= from,
        n <= parents.len(),
    ensures
        forall|j: int|
            1 <= j < n ==> {
                let connection = #[trigger] routed(t, from, parents, n).1[j - 1];
                let after = routed(t, from, parents, n).0;
                &&& connection.from_lane == from
                &&& after.awaits(connection.to_lane as int, parents[j])
                &&& connection.color == after.colors[connection.to_lane as int]
            },
    decreases n,
{
    if n > 1 {
        let (before, connections) = routed(t, from, parents, n - 1);
        lemma_routed_targets(t, from, parents, n - 1);
        lemma_routed(t, from, parents, n - 1);
        lemma_resolve(before, parents[n - 1]);
        let after = routed(t, from, parents, n).0;
        assert forall|j: int| 1 <= j < n implies {
            let connection = #[trigger] routed(t, from, parents, n).1[j - 1];
            &&& connection.from_lane == from
            &&& after.awaits(connection.to_lane as int, parents[j])
            &&& connection.color == after.colors[connection.to_lane as int]
        } by {
            if j < n - 1 {
                let earlier = connections[j - 1];
                assert(routed(t, from, parents, n).1[j - 1] == earlier);
                assert(before.is_open(earlier.to_lane as int));
            }
        }
    }
}

/// Where no lane but `from` awaits `id` and no further parent is `id`,
/// routing leaves it so.
pub proof fn lemma_routed_adds_no_waiter(
    t: LaneState,
    from: int,
    parents: Seq<Seq<char>>,
    n: int,
    id: Seq<char>,
)
    requires
        t.wf(),
        n <= parents.len(),
        forall|i: int| i != from ==> !t.awaits(i, id),
        forall|j: int| 1 <= j < n ==> parents[j] != id,
    ensures
        forall|i: int| i != from ==> !routed(t, from, parents, n).0.awaits(i, id),
    decreases n,
{
    if n > 1 {
        let before = routed(t, from, parents, n - 1).0;
        lemma_routed_adds_no_waiter(t, from, parents, n - 1, id);
        lemma_routed(t, from, parents, n - 1);
        lemma_resolve(before, parents[n - 1]);
        let (after, lane) = resolve(before, parents[n - 1]);
        assert forall|i: int| i != from implies !after.awaits(i, id) by {
            if i != lane && 0 <= i < after.slots.len() {
                assert(!before.awaits(i, id));
            }
        }
    }
}

/// Where no lane but the node's awaits the commit, no lane runs into the
/// node.
pub proof fn lemma_converging_none(t: LaneState, node_lane: int, id: Seq<char>, n: int)
    requires
        forall|i: int| i != node_lane ==> !t.awaits(i, id),
    ensures
        converging(t, node_lane, id, n) == Seq::<ConnectionView>::empty(),
    decreases n,
{
    if n > 0 {
        lemma_converging_none(t, node_lane, id, n - 1);
    }
}

/// A merge commit emits one connection per parent, each to a lane of its
/// own: where the commit has two or more parents, all different, none of
/// the further parents is the commit itself, and at most one lane awaits
/// the commit, its node has exactly as many connections as parents; the
/// connection of a parent starts at the node's lane and ends at the lane
/// that awaits this parent after the row, in that lane's colour; and no two
/// of them end at the same lane.
pub proof fn lemma_merge_connections(t: LaneState, c: CommitRecord, names: Seq<Seq<char>>)
    requires
        t.wf(),
        c.parents.len() >= 2,
        c.parents.no_duplicates(),
        forall|j: int| 1 <= j < c.parents.len() ==> c.parents[j] != c.id,
        forall|i: int, k: int| t.awaits(i, c.id) && t.awaits(k, c.id) ==> i == k,
    ensures
        layout_row(t, c, names).1.is_merge,
        layout_row(t, c, names).1.connections.len() == c.parents.len(),
        forall|j: int|
            0 <= j < c.parents.len() ==> {
                let connection = #[trigger] layout_row(t, c, names).1.connections[j];
                let after = layout_row(t, c, names).0;
                &&& connection.from_lane == layout_row(t, c, names).1.lane
                &&& after.awaits(connection.to_lane as int, c.parents[j])
                &&& connection.color == after.colors[connection.to_lane as int]
            },
        forall|j: int, k: int|
            0 <= j < k < c.parents.len() ==> (#[trigger] layout_row(
                t,
                c,
                names,
            ).1.connections[j]).to_lane != (#[trigger] layout_row(t, c, names).1.connections[k]).to_lane,
{
    let count = c.parents.len() as int;
    lemma_resolve(t, c.id);
    let (settled, lane) = resolve(t, c.id);
    let continued = settled.set_awaiting(lane, c.parents[0]);
    lemma_find_awaiting_none(t, c.id);
    assert forall|i: int| i != lane implies !continued.awaits(i, c.id) by {
        if continued.awaits(i, c.id) {
            assert(settled.slots[i] == Some(c.id));
            if t.find_awaiting(c.id) is Some {
                assert(t.is_first_awaiting(lane, c.id));
                assert(t.awaits(i, c.id));
                assert(t.awaits(lane, c.id));
            } else {
                assert(i < t.slots.len());
                assert(t.awaits(i, c.id));
            }
        }
    }
    let (spread, extra) = routed(continued, lane, c.parents, count);
    lemma_routed(continued, lane, c.parents, count);
    lemma_routed_targets(continued, lane, c.parents, count);
    lemma_routed_adds_no_waiter(continued, lane, c.parents, count, c.id);
    lemma_converging_none(spread, lane, c.id, spread.slots.len() as int);
    let (after, node) = layout_row(t, c, names);
    let own = ConnectionView { from_lane: lane as nat, to_lane: lane as nat, color: settled.colors[lane] };
    assert(node.connections =~= seq![own] + extra);
    assert(continued.is_open(lane));
    assert forall|j: int| 0 <= j < count implies {
        let connection = #[trigger] node.connections[j];
        &&& connection.from_lane == node.lane
        &&& after.awaits(connection.to_lane as int, c.parents[j])
        &&& connection.color == after.colors[connection.to_lane as int]
    } by {
        if j > 0 {
            assert(node.connections[j] == extra[j - 1]);
        }
    }
    assert forall|j: int, k: int| 0 <= j < k < count implies (#[trigger] node.connections[j]).to_lane
        != (#[trigger] node.connections[k]).to_lane by {
        assert(after.awaits(node.connections[j].to_lane as int, c.parents[j]));
        assert(after.awaits(node.connections[k].to_lane as int, c.parents[k]));
    }
}

/// What `passing` lists: exactly the lanes below `n` that cross the row,
/// lowest first, each with its colour.
pub proof fn lemma_passing(t: LaneState, node_lane: int, id: Seq<char>, n: int)
    ensures
        forall|k: int|
            0 <= k < passing(t, node_lane, id, n).len() ==> {
                let crossing = #[trigger] passing(t, node_lane, id, n)[k];
                &&& crossing.lane < n
                &&& passes(t, node_lane, id, crossing.lane as int)
                &&& crossing.color == t.colors[crossing.lane as int]
            },
        forall|k: int, l: int|
            0 <= k < l < passing(t, node_lane, id, n).len() ==> (#[trigger] passing(
                t,
                node_lane,
                id,
                n,
            )[k]).lane < (#[trigger] passing(t, node_lane, id, n)[l]).lane,
        forall|i: int|
            0 <= i < n && passes(t, node_lane, id, i) ==> exists|k: int|
                0 <= k < passing(t, node_lane, id, n).len() && (#[trigger] passing(
                    t,
                    node_lane,
                    id,
                    n,
                )[k]).lane == i,
    decreases n,
{
    if n > 0 {
        lemma_passing(t, node_lane, id, n - 1);
        let before = passing(t, node_lane, id, n - 1);
        let all = passing(t, node_lane, id, n);
        assert forall|i: int| 0 <= i < n && passes(t, node_lane, id, i) implies exists|k: int|
            0 <= k < all.len() && (#[trigger] all[k]).lane == i by {
            if i < n - 1 {
                let k = choose|k: int| 0 <= k < before.len() && (#[trigger] before[k]).lane == i;
                assert(all[k].lane == i);
            } else {
                assert(all[all.len() - 1].lane == i);
            }
        }
    }
}

/// The pass-through lanes of a node are the lanes, other than the node's
/// own, that were open before the row and awaited another commit. Each is
/// listed with the colour it had, and each is still open after the row,
/// awaiting what it awaited.
pub proof fn lemma_pass_through(t: LaneState, c: CommitRecord, names: Seq<Seq<char>>, k: int)
    requires
        t.wf(),
        0 <= k < layout_row(t, c, names).1.pass_through.len(),
    ensures
        ({
            let (after, node) = layout_row(t, c, names);
            let crossing = node.pass_through[k];
            &&& crossing.lane != node.lane
            &&& t.is_open(crossing.lane as int)
            &&& !t.awaits(crossing.lane as int, c.id)
            &&& crossing.color == t.colors[crossing.lane as int]
            &&& after.slots[crossing.lane as int] == t.slots[crossing.lane as int]
            &&& after.colors[crossing.lane as int] == t.colors[crossing.lane as int]
        }),
{
    lemma_resolve(t, c.id);
    let (settled, lane) = resolve(t, c.id);
    lemma_passing(settled, lane, c.id, settled.slots.len() as int);
    let crossing = layout_row(t, c, names).1.pass_through[k];
    let i = crossing.lane as int;
    assert(passes(settled, lane, c.id, i));
    assert(t.is_open(i));
    if c.parents.len() > 0 {
        let continued = settled.set_awaiting(lane, c.parents[0]);
        assert(continued.is_open(i));
        lemma_routed(continued, lane, c.parents, c.parents.len() as int);
    }
}

} // verus!
