//! Commit records, graph nodes, and the graph builder that lays a history
//! out row by row.

use vstd::prelude::*;
use crate::graph_model::CommitRecord;
use crate::graph_model::ConnectionView;
use crate::graph_model::NodeView;
use crate::graph_model::PassThroughView;
use crate::graph_model::TipView;
use crate::graph_model::color_demand;
use crate::graph_model::converging;
use crate::graph_model::layout;
use crate::graph_model::layout_node;
use crate::graph_model::layout_row;
use crate::graph_model::layout_state;
use crate::graph_model::lemma_layout_row;
use crate::graph_model::lemma_total_color_demand_grows;
use crate::graph_model::total_color_demand;
use crate::graph_model::lemma_resolve;
use crate::graph_model::lemma_routed;
use crate::graph_model::passes;
use crate::graph_model::passing;
use crate::graph_model::resolve;
use crate::graph_model::routed;
use crate::graph_model::tip_names;
use crate::lanes::LaneTable;
use crate::text::texts;

verus! {

/// A commit as the history view shows it.
#[derive(Debug, Clone, PartialEq, Eq)]
pub struct CommitInfo {
    pub id: String,
    pub short_id: String,
    pub message: String,
    pub summary: String,
    pub author_name: String,
    pub author_email: String,
    pub committer_name: String,
    pub committer_email: String,
    pub time: i64,
    pub parent_ids: Vec<String>,
}

/// A line from a node to the lane of one of its parents.
#[derive(Debug, Clone, PartialEq, Eq)]
pub struct GraphConnection {
    pub from_lane: usize,
    pub to_lane: usize,
    pub color_index: usize,
}

/// A lane that crosses a row without starting or ending there.
#[derive(Debug, Clone, PartialEq, Eq)]
pub struct PassThroughLane {
    pub lane: usize,
    pub color_index: usize,
}

/// The graph data of one commit.
#[derive(Debug, Clone, PartialEq, Eq)]
pub struct GraphNode {
    pub lane: usize,
    pub color_index: usize,
    pub connections_to_parents: Vec<GraphConnection>,
    pub pass_through_lanes: Vec<PassThroughLane>,
    pub is_merge: bool,
    pub branch_names: Vec<String>,
}

/// A commit paired with its graph data.
#[derive(Debug, Clone, PartialEq, Eq)]
pub struct CommitGraphEntry {
    pub commit: CommitInfo,
    pub graph: GraphNode,
}

/// A branch name and the id of the commit that the branch points at.
#[derive(Debug, Clone, PartialEq, Eq)]
pub struct BranchTip {
    pub name: String,
    pub commit_id: String,
}

impl CommitInfo {
    /// What the layout reads of this commit.
    pub open spec fn record(&self) -> CommitRecord {
        CommitRecord { id: self.id@, parents: texts(self.parent_ids@) }
    }
}

/// What the layout reads of each commit of a history.
pub open spec fn records(commits: Seq<CommitInfo>) -> Seq<CommitRecord> {
    Seq::new(commits.len(), |i: int| commits[i].record())
}

impl View for BranchTip {
    type V = TipView;

    open spec fn view(&self) -> TipView {
        TipView { name: self.name@, commit_id: self.commit_id@ }
    }
}

/// The tips of a sequence, each as plain values.
pub open spec fn tip_views(tips: Seq<BranchTip>) -> Seq<TipView> {
    Seq::new(tips.len(), |i: int| tips[i]@)
}

impl View for GraphConnection {
    type V = ConnectionView;

    open spec fn view(&self) -> ConnectionView {
        ConnectionView {
            from_lane: self.from_lane as nat,
            to_lane: self.to_lane as nat,
            color: self.color_index as nat,
        }
    }
}

/// The connections of a sequence, each as plain values.
pub open spec fn connection_views(connections: Seq<GraphConnection>) -> Seq<ConnectionView> {
    Seq::new(connections.len(), |i: int| connections[i]@)
}

impl View for PassThroughLane {
    type V = PassThroughView;

    open spec fn view(&self) -> PassThroughView {
        PassThroughView { lane: self.lane as nat, color: self.color_index as nat }
    }
}

/// The pass-through lanes of a sequence, each as plain values.
pub open spec fn pass_through_views(lanes: Seq<PassThroughLane>) -> Seq<PassThroughView> {
    Seq::new(lanes.len(), |i: int| lanes[i]@)
}

impl View for GraphNode {
    type V = NodeView;

    open spec fn view(&self) -> NodeView {
        NodeView {
            lane: self.lane as nat,
            color: self.color_index as nat,
            connections: connection_views(self.connections_to_parents@),
            pass_through: pass_through_views(self.pass_through_lanes@),
            is_merge: self.is_merge,
            branch_names: texts(self.branch_names@),
        }
    }
}

/// The nodes of a sequence, each as plain values.
pub open spec fn node_views(nodes: Seq<GraphNode>) -> Seq<NodeView> {
    Seq::new(nodes.len(), |i: int| nodes[i]@)
}

/// The names of the branches that point at commit `id`, in the order of
/// `tips`.
pub fn branch_names_at(tips: &[BranchTip], id: &String) -> (names: Vec<String>)
    ensures
        texts(names@) == tip_names(tip_views(tips@), id@, tips@.len() as int),
{
    let mut names: Vec<String> = Vec::new();
    let mut i: usize = 0;
    while i < tips.len()
        invariant
            i <= tips@.len(),
            texts(names@) =~= tip_names(tip_views(tips@), id@, i as int),
        decreases tips@.len() - i,
    {
        if tips[i].commit_id == *id {
            names.push(tips[i].name.clone());
        }
        i += 1;
    }
    names
}

/// Settles the lane for `id`: the lowest lane that awaits it, or else a
/// newly opened lane with a fresh colour. Returns the lane and its colour.
pub fn settle_lane(table: &mut LaneTable, id: &String) -> (settled: (usize, usize))
    requires
        old(table)@.wf(),
        old(table)@.next_color < usize::MAX,
    ensures
        final(table)@ == resolve(old(table)@, id@).0,
        settled.0 == resolve(old(table)@, id@).1,
        settled.1 == final(table)@.colors[settled.0 as int],
        settled.0 < final(table)@.len(),
        final(table)@.wf(),
{
    proof {
        lemma_resolve(table@, id@);
    }
    match table.find_awaiting(id) {
        Some(lane) => {
            let color = table.color_of(lane);
            (lane, color)
        },
        None => table.open_or_reuse(id.clone()),
    }
}

/// Places one commit: settles its lane, hands the lane on to the first
/// parent or closes it, gives every further parent a lane, and closes every
/// other lane that awaited the commit. Returns the commit's node.
pub fn layout_commit(table: &mut LaneTable, commit: &CommitInfo, branch_names: Vec<String>) -> (node:
    GraphNode)
    requires
        old(table)@.wf(),
        old(table)@.next_color + color_demand(commit.record()) <= usize::MAX,
    ensures
        final(table)@ == layout_row(old(table)@, commit.record(), texts(branch_names@)).0,
        node@ == layout_row(old(table)@, commit.record(), texts(branch_names@)).1,
        final(table)@.wf(),
{
    let ghost start = table@;
    let ghost c = commit.record();
    let (node_lane, color) = settle_lane(table, &commit.id);
    let ghost settled = table@;
    let ghost lane = node_lane as int;

    // The lanes that cross this row, as they stand before the parents are
    // routed.
    let lanes = table.lane_count();
    let mut snapshot: Vec<PassThroughLane> = Vec::new();
    let mut i: usize = 0;
    while i < lanes
        invariant
            i <= lanes,
            lanes == settled.slots.len(),
            table@ == settled,
            settled.wf(),
            c.id == commit.id@,
            lane == node_lane as int,
            pass_through_views(snapshot@) =~= passing(settled, lane, c.id, i as int),
            forall|k: int|
                0 <= k < snapshot@.len() ==> passes(
                    settled,
                    lane,
                    c.id,
                    (#[trigger] snapshot@[k]).lane as int,
                ),
        decreases lanes - i,
    {
        if i != node_lane && table.is_open(i) && !table.awaits(i, &commit.id) {
            let color_index = table.color_of(i);
            snapshot.push(PassThroughLane { lane: i, color_index });
        }
        i += 1;
    }

    let mut connections: Vec<GraphConnection> = Vec::new();
    let has_parents = commit.parent_ids.len() > 0;
    let ghost own = ConnectionView { from_lane: lane as nat, to_lane: lane as nat, color: color as nat };
    if has_parents {
        table.set_awaiting(node_lane, commit.parent_ids[0].clone());
        connections.push(
            GraphConnection { from_lane: node_lane, to_lane: node_lane, color_index: color },
        );
        let ghost continued = table@;
        let mut k: usize = 1;
        while k < commit.parent_ids.len()
            invariant
                1 <= k <= commit.parent_ids@.len(),
                c == commit.record(),
                lane == node_lane as int,
                continued.wf(),
                continued.next_color + commit.parent_ids@.len() - 1 <= usize::MAX,
                table@ == routed(continued, lane, c.parents, k as int).0,
                connection_views(connections@) =~= seq![own] + routed(
                    continued,
                    lane,
                    c.parents,
                    k as int,
                ).1,
            decreases commit.parent_ids@.len() - k,
        {
            proof {
                lemma_routed(continued, lane, c.parents, k as int);
            }
            let ghost before = connection_views(connections@);
            let (target, target_color) = settle_lane(table, &commit.parent_ids[k]);
            let connection = GraphConnection {
                from_lane: node_lane,
                to_lane: target,
                color_index: target_color,
            };
            connections.push(connection);
            proof {
                assert(c.parents[k as int] == commit.parent_ids@[k as int]@);
                assert(connection_views(connections@) =~= before.push(connection@));
                assert(routed(continued, lane, c.parents, k + 1).1 == routed(
                    continued,
                    lane,
                    c.parents,
                    k as int,
                ).1.push(connection@));
            }
            k += 1;
        }
        proof {
            lemma_routed(continued, lane, c.parents, c.parents.len() as int);
            assert forall|x: int| passes(settled, lane, c.id, x) implies table@.slots[x]
                == settled.slots[x] by {
                assert(continued.is_open(x));
            }
        }
    } else {
        table.free(node_lane);
    }

    // Every other lane that still awaits this commit runs into the node.
    let ghost spread = table@;
    let ghost base = connection_views(connections@);
    let total = table.lane_count();
    let mut j: usize = 0;
    while j < total
        invariant
            j <= total,
            total == spread.slots.len(),
            spread.wf(),
            c.id == commit.id@,
            lane == node_lane as int,
            table@.colors == spread.colors,
            table@.next_color == spread.next_color,
            table@.slots =~= Seq::new(
                spread.slots.len(),
                |x: int|
                    if x < j && x != lane && spread.slots[x] == Some(c.id) {
                        None
                    } else {
                        spread.slots[x]
                    },
            ),
            connection_views(connections@) =~= if has_parents {
                base + converging(spread, lane, c.id, j as int)
            } else {
                base
            },
        decreases total - j,
    {
        assert(table@.slots[j as int] == spread.slots[j as int]);
        if j != node_lane && table.awaits(j, &commit.id) {
            if has_parents {
                let ghost before = connection_views(connections@);
                let lane_color = table.color_of(j);
                let connection = GraphConnection {
                    from_lane: j,
                    to_lane: node_lane,
                    color_index: lane_color,
                };
                connections.push(connection);
                assert(connection_views(connections@) =~= before.push(connection@));
            }
            table.free(j);
        }
        j += 1;
    }
    proof {
        assert(table@.slots =~= spread.close_awaiting(lane, c.id).slots);
        assert(table@ == spread.close_awaiting(lane, c.id));
        assert forall|x: int| passes(settled, lane, c.id, x) implies table@.is_open(x) by {
            assert(spread.slots[x] == settled.slots[x]);
        }
    }

    // A lane that crossed the row is kept only while it is still open.
    let mut pass_through_lanes: Vec<PassThroughLane> = Vec::new();
    let mut s: usize = 0;
    while s < snapshot.len()
        invariant
            s <= snapshot@.len(),
            forall|k: int|
                0 <= k < snapshot@.len() ==> table@.is_open((#[trigger] snapshot@[k]).lane as int),
            pass_through_views(pass_through_lanes@) =~= pass_through_views(snapshot@).take(s as int),
        decreases snapshot@.len() - s,
    {
        let crossing = &snapshot[s];
        let ghost before = pass_through_views(pass_through_lanes@);
        if table.is_open(crossing.lane) {
            let kept = PassThroughLane { lane: crossing.lane, color_index: crossing.color_index };
            pass_through_lanes.push(kept);
            assert(pass_through_views(pass_through_lanes@) =~= before.push(snapshot@[s as int]@));
        }
        s += 1;
    }
    assert(pass_through_views(snapshot@).take(snapshot@.len() as int) =~= pass_through_views(
        snapshot@,
    ));

    let node = GraphNode {
        lane: node_lane,
        color_index: color,
        connections_to_parents: connections,
        pass_through_lanes,
        is_merge: commit.parent_ids.len() > 1,
        branch_names,
    };
    assert(node@.connections =~= layout_row(start, c, texts(branch_names@)).1.connections);
    node
}

/// Whether the colour counter can serve every row of `commits`: whether the
/// colours that the history can demand fit in a `usize`.
pub fn color_demand_fits(commits: &[CommitInfo]) -> (fits: bool)
    ensures
        fits == (total_color_demand(records(commits@), commits@.len() as int) <= usize::MAX),
{
    let ghost rows = records(commits@);
    let mut sum: usize = 0;
    let mut i: usize = 0;
    while i < commits.len()
        invariant
            i <= commits@.len(),
            rows == records(commits@),
            sum == total_color_demand(rows, i as int),
        decreases commits@.len() - i,
    {
        let parents = commits[i].parent_ids.len();
        let demand: usize = if parents == 0 {
            1
        } else {
            parents
        };
        assert(demand == color_demand(rows[i as int]));
        match sum.checked_add(demand) {
            Some(next) => {
                sum = next;
            },
            None => {
                proof {
                    lemma_total_color_demand_grows(rows, i + 1, commits@.len() as int);
                }
                return false;
            },
        }
        i += 1;
    }
    true
}

/// Lays out a history: one node per commit, in the order of the commits.
/// The lane table starts empty and lives for this call only. `tips` gives
/// the branches whose names are attached to the commits they point at.
pub fn compute_graph(commits: &[CommitInfo], tips: &[BranchTip]) -> (nodes: Vec<GraphNode>)
    requires
        total_color_demand(records(commits@), commits@.len() as int) <= usize::MAX,
    ensures
        nodes@.len() == commits@.len(),
        node_views(nodes@) == layout(records(commits@), tip_views(tips@)),
{
    let ghost rows = records(commits@);
    let ghost names = tip_views(tips@);
    let mut table = LaneTable::new();
    let mut nodes: Vec<GraphNode> = Vec::with_capacity(commits.len());
    let mut i: usize = 0;
    while i < commits.len()
        invariant
            i <= commits@.len(),
            rows == records(commits@),
            names == tip_views(tips@),
            total_color_demand(rows, commits@.len() as int) <= usize::MAX,
            table@ == layout_state(rows, i as int),
            table@.wf(),
            table@.next_color <= total_color_demand(rows, i as int),
            nodes@.len() == i,
            forall|j: int| 0 <= j < i ==> (#[trigger] nodes@[j])@ == layout_node(rows, names, j),
        decreases commits@.len() - i,
    {
        let branch_names = branch_names_at(tips, &commits[i].id);
        proof {
            assert(rows[i as int] == commits@[i as int].record());
            lemma_total_color_demand_grows(rows, i + 1, commits@.len() as int);
            lemma_layout_row(table@, rows[i as int], texts(branch_names@));
        }
        let node = layout_commit(&mut table, &commits[i], branch_names);
        nodes.push(node);
        i += 1;
    }
    assert(node_views(nodes@) =~= layout(rows, names));
    nodes
}

/// Lays out a history where the colour counter can serve it, and gives
/// `None` where the history could ask for more colours than a `usize`
/// counts.
pub fn try_compute_graph(commits: &[CommitInfo], tips: &[BranchTip]) -> (laid_out: Option<
    Vec<GraphNode>,
>)
    ensures
        laid_out is Some <==> total_color_demand(records(commits@), commits@.len() as int)
            <= usize::MAX,
        laid_out matches Some(nodes) ==> nodes@.len() == commits@.len() && node_views(nodes@)
            == layout(records(commits@), tip_views(tips@)),
{
    if color_demand_fits(commits) {
        Some(compute_graph(commits, tips))
    } else {
        None
    }
}

/// Pairs each commit with the node at the same position. Where one list is
/// longer than the other, what has no partner is left out.
pub fn pair_with_graph(commits: Vec<CommitInfo>, nodes: Vec<GraphNode>) -> (entries: Vec<
    CommitGraphEntry,
>)
    ensures
        entries@.len() == if commits@.len() <= nodes@.len() {
            commits@.len()
        } else {
            nodes@.len()
        },
        forall|i: int|
            0 <= i < entries@.len() ==> (#[trigger] entries@[i]).commit == commits@[i]
                && entries@[i].graph == nodes@[i],
{
    let mut commits = commits;
    let mut nodes = nodes;
    let ghost all_commits = commits@;
    let ghost all_nodes = nodes@;
    let count = if commits.len() <= nodes.len() {
        commits.len()
    } else {
        nodes.len()
    };
    commits.truncate(count);
    nodes.truncate(count);
    // Taken from the back, the pairs come out last first.
    let mut reversed: Vec<CommitGraphEntry> = Vec::with_capacity(count);
    while commits.len() > 0
        invariant
            commits@.len() == nodes@.len(),
            commits@.len() + reversed@.len() == count,
            commits@ == all_commits.take(commits@.len() as int),
            nodes@ == all_nodes.take(nodes@.len() as int),
            count <= all_commits.len(),
            count <= all_nodes.len(),
            forall|k: int|
                0 <= k < reversed@.len() ==> (#[trigger] reversed@[k]).commit == all_commits[count
                    - 1 - k] && reversed@[k].graph == all_nodes[count - 1 - k],
        decreases commits@.len(),
    {
        let commit = commits.pop();
        let graph = nodes.pop();
        match (commit, graph) {
            (Some(commit), Some(graph)) => {
                reversed.push(CommitGraphEntry { commit, graph });
            },
            _ => {},
        }
        assert(commits@ =~= all_commits.take(commits@.len() as int));
        assert(nodes@ =~= all_nodes.take(nodes@.len() as int));
    }
    let mut entries: Vec<CommitGraphEntry> = Vec::with_capacity(count);
    while reversed.len() > 0
        invariant
            reversed@.len() + entries@.len() == count,
            count <= all_commits.len(),
            count <= all_nodes.len(),
            forall|k: int|
                0 <= k < reversed@.len() ==> (#[trigger] reversed@[k]).commit == all_commits[count
                    - 1 - k] && reversed@[k].graph == all_nodes[count - 1 - k],
            forall|k: int|
                0 <= k < entries@.len() ==> (#[trigger] entries@[k]).commit == all_commits[k]
                    && entries@[k].graph == all_nodes[k],
        decreases reversed@.len(),
    {
        match reversed.pop() {
            Some(entry) => {
                entries.push(entry);
            },
            None => {},
        }
    }
    entries
}

/// The history with its graph: each commit paired with its node, in the
/// order of the commits.
pub fn commit_graph_entries(commits: Vec<CommitInfo>, tips: &[BranchTip]) -> (entries: Vec<
    CommitGraphEntry,
>)
    requires
        total_color_demand(records(commits@), commits@.len() as int) <= usize::MAX,
    ensures
        entries@.len() == commits@.len(),
        forall|i: int|
            0 <= i < entries@.len() ==> (#[trigger] entries@[i]).commit == commits@[i]
                && entries@[i].graph@ == layout_node(records(commits@), tip_views(tips@), i),
{
    let nodes = compute_graph(commits.as_slice(), tips);
    proof {
        assert forall|i: int| 0 <= i < nodes@.len() implies (#[trigger] nodes@[i])@ == layout_node(
            records(commits@),
            tip_views(tips@),
            i,
        ) by {
            assert(node_views(nodes@)[i] == layout(records(commits@), tip_views(tips@))[i]);
        }
    }
    pair_with_graph(commits, nodes)
}

} // verus!
