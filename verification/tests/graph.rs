use git_client::history::branch_names_at;
use git_client::history::color_demand_fits;
use git_client::history::commit_graph_entries;
use git_client::history::compute_graph;
use git_client::history::layout_commit;
use git_client::history::pair_with_graph;
use git_client::history::settle_lane;
use git_client::history::try_compute_graph;
use git_client::history::BranchTip;
use git_client::history::CommitInfo;
use git_client::history::GraphConnection;
use git_client::history::GraphNode;
use git_client::history::PassThroughLane;
use git_client::lanes::LaneTable;

fn commit(id: &str, parents: &[&str]) -> CommitInfo {
    CommitInfo {
        id: id.to_string(),
        short_id: id.chars().take(7).collect(),
        message: format!("message of {}", id),
        summary: format!("summary of {}", id),
        author_name: "Ada".to_string(),
        author_email: "ada@example.org".to_string(),
        committer_name: "Bob".to_string(),
        committer_email: "bob@example.org".to_string(),
        time: 1_700_000_000,
        parent_ids: parents.iter().map(|p| p.to_string()).collect(),
    }
}

fn tip(name: &str, commit_id: &str) -> BranchTip {
    BranchTip { name: name.to_string(), commit_id: commit_id.to_string() }
}

fn conn(from_lane: usize, to_lane: usize, color_index: usize) -> GraphConnection {
    GraphConnection { from_lane, to_lane, color_index }
}

fn pass(lane: usize, color_index: usize) -> PassThroughLane {
    PassThroughLane { lane, color_index }
}

fn graph(commits: &[CommitInfo]) -> Vec<GraphNode> {
    assert!(color_demand_fits(commits));
    compute_graph(commits, &[])
}

#[test]
fn empty_history_gives_empty_graph() {
    assert_eq!(graph(&[]), Vec::<GraphNode>::new());
}

#[test]
fn output_has_one_node_per_commit_in_order() {
    let commits = vec![
        commit("a", &["b", "c"]),
        commit("b", &["d"]),
        commit("c", &["d"]),
        commit("d", &[]),
        commit("x", &[]),
    ];
    let nodes = graph(&commits);
    assert_eq!(nodes.len(), commits.len());
    for (i, node) in nodes.iter().enumerate() {
        assert_eq!(node.is_merge, commits[i].parent_ids.len() > 1);
    }
}

#[test]
fn concrete_scenario_with_merge_and_two_roots() {
    let commits = vec![
        commit("C1", &["C2"]),
        commit("C2", &["C3", "C4"]),
        commit("C3", &["C5"]),
        commit("C4", &[]),
        commit("C5", &[]),
    ];
    let nodes = graph(&commits);
    assert_eq!(nodes.len(), 5);

    assert_eq!(nodes[0].lane, 0);
    assert_eq!(nodes[0].color_index, 0);
    assert_eq!(nodes[0].connections_to_parents, vec![conn(0, 0, 0)]);
    assert_eq!(nodes[0].pass_through_lanes, vec![]);
    assert!(!nodes[0].is_merge);

    assert_eq!(nodes[1].lane, 0);
    assert_eq!(nodes[1].color_index, 0);
    assert_eq!(nodes[1].connections_to_parents, vec![conn(0, 0, 0), conn(0, 1, 1)]);
    assert_eq!(nodes[1].pass_through_lanes, vec![]);
    assert!(nodes[1].is_merge);

    assert_eq!(nodes[2].lane, 0);
    assert_eq!(nodes[2].color_index, 0);
    assert_eq!(nodes[2].connections_to_parents, vec![conn(0, 0, 0)]);
    assert_eq!(nodes[2].pass_through_lanes, vec![pass(1, 1)]);
    assert!(!nodes[2].is_merge);

    assert_eq!(nodes[3].lane, 1);
    assert_eq!(nodes[3].color_index, 1);
    assert_eq!(nodes[3].connections_to_parents, vec![]);
    assert_eq!(nodes[3].pass_through_lanes, vec![pass(0, 0)]);
    assert!(!nodes[3].is_merge);

    assert_eq!(nodes[4].lane, 0);
    assert_eq!(nodes[4].color_index, 0);
    assert_eq!(nodes[4].connections_to_parents, vec![]);
    assert_eq!(nodes[4].pass_through_lanes, vec![]);
    assert!(!nodes[4].is_merge);
}

#[test]
fn scenario_frees_both_lanes_at_the_roots() {
    let commits = vec![
        commit("C1", &["C2"]),
        commit("C2", &["C3", "C4"]),
        commit("C3", &["C5"]),
        commit("C4", &[]),
        commit("C5", &[]),
    ];
    let mut table = LaneTable::new();
    for c in commits.iter().take(3) {
        layout_commit(&mut table, c, Vec::new());
    }
    assert_eq!(table.lane_count(), 2);
    assert!(table.is_open(0));
    assert!(table.is_open(1));
    layout_commit(&mut table, &commits[3], Vec::new());
    assert!(table.is_open(0));
    assert!(!table.is_open(1));
    layout_commit(&mut table, &commits[4], Vec::new());
    assert!(!table.is_open(0));
    assert!(!table.is_open(1));
    assert_eq!(table.next_color(), 2);
}

#[test]
fn linear_chain_stays_in_lane_zero() {
    let n = 12;
    let mut commits = Vec::new();
    for i in 0..n {
        let id = format!("c{}", i);
        if i + 1 < n {
            let parent = format!("c{}", i + 1);
            commits.push(commit(&id, &[parent.as_str()]));
        } else {
            commits.push(commit(&id, &[]));
        }
    }
    let nodes = graph(&commits);
    assert_eq!(nodes.len(), n);
    for (i, node) in nodes.iter().enumerate() {
        assert_eq!(node.lane, 0);
        assert_eq!(node.color_index, 0);
        assert_eq!(node.pass_through_lanes, vec![]);
        assert!(!node.is_merge);
        if i + 1 < n {
            assert_eq!(node.connections_to_parents, vec![conn(0, 0, 0)]);
        } else {
            assert_eq!(node.connections_to_parents, vec![]);
        }
    }
}

#[test]
fn single_root_commit() {
    let nodes = graph(&[commit("only", &[])]);
    assert_eq!(
        nodes,
        vec![GraphNode {
            lane: 0,
            color_index: 0,
            connections_to_parents: vec![],
            pass_through_lanes: vec![],
            is_merge: false,
            branch_names: vec![],
        }]
    );
}

#[test]
fn merge_emits_one_connection_per_parent_to_distinct_lanes() {
    let commits = vec![commit("m", &["p0", "p1", "p2", "p3"])];
    let nodes = graph(&commits);
    let node = &nodes[0];
    assert!(node.is_merge);
    assert_eq!(
        node.connections_to_parents,
        vec![conn(0, 0, 0), conn(0, 1, 1), conn(0, 2, 2), conn(0, 3, 3)]
    );
    let mut targets: Vec<usize> = node.connections_to_parents.iter().map(|c| c.to_lane).collect();
    targets.sort();
    targets.dedup();
    assert_eq!(targets.len(), 4);
}

#[test]
fn merge_reuses_a_lane_that_already_awaits_the_parent() {
    // Lane 0 awaits m, lane 1 awaits p1 before m is placed.
    let commits = vec![
        commit("t", &["m", "p1"]),
        commit("m", &["p0", "p1"]),
    ];
    let nodes = graph(&commits);
    assert_eq!(nodes[0].connections_to_parents, vec![conn(0, 0, 0), conn(0, 1, 1)]);
    assert_eq!(nodes[1].lane, 0);
    assert_eq!(nodes[1].connections_to_parents, vec![conn(0, 0, 0), conn(0, 1, 1)]);
    assert_eq!(nodes[1].pass_through_lanes, vec![pass(1, 1)]);
}

#[test]
fn merge_with_a_repeated_parent_points_twice_to_one_lane() {
    let nodes = graph(&[commit("m", &["a", "a"])]);
    assert_eq!(nodes[0].connections_to_parents, vec![conn(0, 0, 0), conn(0, 0, 0)]);
    assert!(nodes[0].is_merge);
}

#[test]
fn converging_lanes_run_into_the_node_and_close() {
    // Two tips share the ancestor `base`.
    let commits = vec![
        commit("tip1", &["base"]),
        commit("tip2", &["base"]),
        commit("base", &["root"]),
        commit("root", &[]),
    ];
    let nodes = graph(&commits);
    assert_eq!(nodes[0].lane, 0);
    assert_eq!(nodes[0].color_index, 0);
    assert_eq!(nodes[1].lane, 1);
    assert_eq!(nodes[1].color_index, 1);
    assert_eq!(nodes[1].connections_to_parents, vec![conn(1, 1, 1)]);
    assert_eq!(nodes[1].pass_through_lanes, vec![pass(0, 0)]);

    assert_eq!(nodes[2].lane, 0);
    assert_eq!(nodes[2].color_index, 0);
    assert_eq!(nodes[2].connections_to_parents, vec![conn(0, 0, 0), conn(1, 0, 1)]);
    assert_eq!(nodes[2].pass_through_lanes, vec![]);

    assert_eq!(nodes[3].lane, 0);
    assert_eq!(nodes[3].connections_to_parents, vec![]);
    assert_eq!(nodes[3].pass_through_lanes, vec![]);
}

#[test]
fn converging_lanes_at_a_root_close_without_connections() {
    let commits = vec![
        commit("tip1", &["root"]),
        commit("tip2", &["root"]),
        commit("other", &["far"]),
        commit("root", &[]),
    ];
    let mut table = LaneTable::new();
    let mut nodes = Vec::new();
    for c in commits.iter() {
        nodes.push(layout_commit(&mut table, c, Vec::new()));
    }
    assert_eq!(nodes[3].lane, 0);
    assert_eq!(nodes[3].connections_to_parents, vec![]);
    assert_eq!(nodes[3].pass_through_lanes, vec![pass(2, 2)]);
    assert!(!table.is_open(0));
    assert!(!table.is_open(1));
    assert!(table.is_open(2));
}

#[test]
fn two_independent_roots_get_fresh_lanes_and_distinct_colors() {
    let nodes = graph(&[commit("r1", &[]), commit("r2", &[])]);
    assert_eq!(nodes[0].lane, 0);
    assert_eq!(nodes[0].color_index, 0);
    assert_eq!(nodes[0].connections_to_parents, vec![]);
    assert_eq!(nodes[1].lane, 0);
    assert_eq!(nodes[1].color_index, 1);
    assert_eq!(nodes[1].connections_to_parents, vec![]);
    assert_ne!(nodes[0].color_index, nodes[1].color_index);
}

#[test]
fn open_lanes_never_share_a_color() {
    let commits = vec![
        commit("a", &["b", "c", "d"]),
        commit("x", &["y"]),
        commit("b", &[]),
        commit("z", &["y", "c"]),
        commit("c", &["d"]),
    ];
    let mut table = LaneTable::new();
    for c in commits.iter() {
        layout_commit(&mut table, c, Vec::new());
        let mut colors = Vec::new();
        for lane in 0..table.lane_count() {
            if table.is_open(lane) {
                colors.push(table.color_of(lane));
            }
        }
        let count = colors.len();
        colors.sort();
        colors.dedup();
        assert_eq!(colors.len(), count);
    }
}

#[test]
fn lane_keeps_its_color_while_it_stays_open() {
    let commits = vec![
        commit("a", &["b", "long"]),
        commit("b", &["c"]),
        commit("c", &["d"]),
        commit("d", &[]),
        commit("e", &["f"]),
    ];
    let mut table = LaneTable::new();
    layout_commit(&mut table, &commits[0], Vec::new());
    assert!(table.awaits(1, &"long".to_string()));
    let color = table.color_of(1);
    for c in commits.iter().skip(1) {
        layout_commit(&mut table, c, Vec::new());
        assert!(table.is_open(1));
        assert_eq!(table.color_of(1), color);
    }
}

#[test]
fn reused_lane_gets_a_color_above_all_earlier_ones() {
    let commits = vec![
        commit("a", &["b", "c"]),
        commit("c", &[]),
        commit("b", &["d", "e"]),
    ];
    let nodes = graph(&commits);
    // Lane 1 held colour 1 for `c`, was freed, and is opened again for `e`.
    assert_eq!(nodes[1].lane, 1);
    assert_eq!(nodes[1].color_index, 1);
    assert_eq!(nodes[2].connections_to_parents, vec![conn(0, 0, 0), conn(0, 1, 2)]);
    let earlier: Vec<usize> = vec![nodes[0].color_index, nodes[1].color_index];
    for color in earlier {
        assert!(color < 2);
    }
}

#[test]
fn pass_through_excludes_own_lane_and_converging_lanes() {
    let commits = vec![
        commit("t1", &["x"]),
        commit("t2", &["x"]),
        commit("t3", &["y"]),
        commit("x", &["z"]),
    ];
    let nodes = graph(&commits);
    assert_eq!(nodes[3].lane, 0);
    assert_eq!(nodes[3].pass_through_lanes, vec![pass(2, 2)]);
    assert_eq!(nodes[3].connections_to_parents, vec![conn(0, 0, 0), conn(1, 0, 1)]);
}

#[test]
fn parent_that_never_arrives_keeps_its_lane_open() {
    let commits = vec![
        commit("a", &["missing"]),
        commit("b", &["c"]),
        commit("c", &[]),
    ];
    let nodes = graph(&commits);
    assert_eq!(nodes[1].lane, 1);
    assert_eq!(nodes[1].pass_through_lanes, vec![pass(0, 0)]);
    assert_eq!(nodes[2].lane, 1);
    assert_eq!(nodes[2].pass_through_lanes, vec![pass(0, 0)]);
}

#[test]
fn duplicate_ids_are_absorbed() {
    let commits = vec![commit("a", &["a"]), commit("a", &["a"]), commit("a", &[])];
    let nodes = graph(&commits);
    assert_eq!(nodes.len(), 3);
    for node in nodes.iter() {
        assert_eq!(node.lane, 0);
        assert_eq!(node.color_index, 0);
    }
    assert_eq!(nodes[0].connections_to_parents, vec![conn(0, 0, 0)]);
    assert_eq!(nodes[2].connections_to_parents, vec![]);
}

#[test]
fn self_parent_beyond_the_first_opens_and_closes_a_lane() {
    let nodes = graph(&[commit("s", &["p", "s"])]);
    assert_eq!(
        nodes[0].connections_to_parents,
        vec![conn(0, 0, 0), conn(0, 1, 1), conn(1, 0, 1)]
    );
}

#[test]
fn layout_is_deterministic() {
    let commits = vec![
        commit("a", &["b", "c"]),
        commit("c", &["d"]),
        commit("b", &["d"]),
        commit("d", &[]),
    ];
    assert_eq!(graph(&commits), graph(&commits));
}

#[test]
fn branch_names_follow_the_order_of_the_tips() {
    let tips = vec![tip("main", "a"), tip("dev", "b"), tip("release", "a")];
    assert_eq!(
        branch_names_at(&tips, &"a".to_string()),
        vec!["main".to_string(), "release".to_string()]
    );
    assert_eq!(branch_names_at(&tips, &"b".to_string()), vec!["dev".to_string()]);
    assert_eq!(branch_names_at(&tips, &"c".to_string()), Vec::<String>::new());
}

#[test]
fn nodes_carry_the_branch_names_of_their_commit() {
    let commits = vec![commit("a", &["b"]), commit("b", &[])];
    let tips = vec![tip("main", "a"), tip("old", "b"), tip("feature", "a")];
    let nodes = compute_graph(&commits, &tips);
    assert_eq!(nodes[0].branch_names, vec!["main".to_string(), "feature".to_string()]);
    assert_eq!(nodes[1].branch_names, vec!["old".to_string()]);
}

#[test]
fn color_demand_fits_for_ordinary_histories() {
    assert!(color_demand_fits(&[]));
    assert!(color_demand_fits(&[commit("a", &["b", "c"]), commit("b", &[])]));
}

#[test]
fn pairing_keeps_order_and_drops_what_has_no_partner() {
    let commits = vec![commit("a", &["b"]), commit("b", &["c"]), commit("c", &[])];
    let nodes = graph(&commits[..2]);
    let entries = pair_with_graph(commits.clone(), nodes.clone());
    assert_eq!(entries.len(), 2);
    assert_eq!(entries[0].commit, commits[0]);
    assert_eq!(entries[0].graph, nodes[0]);
    assert_eq!(entries[1].commit, commits[1]);
    assert_eq!(entries[1].graph, nodes[1]);
}

#[test]
fn entries_pair_each_commit_with_its_node() {
    let commits = vec![commit("a", &["b", "c"]), commit("b", &[]), commit("c", &[])];
    let tips = vec![tip("main", "a")];
    let nodes = compute_graph(&commits, &tips);
    let entries = commit_graph_entries(commits.clone(), &tips);
    assert_eq!(entries.len(), 3);
    for i in 0..3 {
        assert_eq!(entries[i].commit, commits[i]);
        assert_eq!(entries[i].graph, nodes[i]);
    }
}

#[test]
fn lane_table_opens_the_lowest_empty_lane() {
    let mut table = LaneTable::new();
    assert_eq!(table.lane_count(), 0);
    assert_eq!(table.next_color(), 0);
    assert_eq!(table.open_or_reuse("a".to_string()), (0, 0));
    assert_eq!(table.open_or_reuse("b".to_string()), (1, 1));
    assert_eq!(table.open_or_reuse("c".to_string()), (2, 2));
    table.free(1);
    table.free(0);
    assert_eq!(table.open_or_reuse("d".to_string()), (0, 3));
    assert_eq!(table.open_or_reuse("e".to_string()), (1, 4));
    assert_eq!(table.open_or_reuse("f".to_string()), (3, 5));
    assert_eq!(table.lane_count(), 4);
    assert_eq!(table.next_color(), 6);
}

#[test]
fn lane_table_finds_the_lowest_awaiting_lane() {
    let mut table = LaneTable::new();
    table.open_or_reuse("a".to_string());
    table.open_or_reuse("b".to_string());
    table.open_or_reuse("b".to_string());
    assert_eq!(table.find_awaiting(&"a".to_string()), Some(0));
    assert_eq!(table.find_awaiting(&"b".to_string()), Some(1));
    assert_eq!(table.find_awaiting(&"c".to_string()), None);
    table.free(1);
    assert_eq!(table.find_awaiting(&"b".to_string()), Some(2));
}

#[test]
fn lane_table_set_awaiting_keeps_the_color() {
    let mut table = LaneTable::new();
    table.open_or_reuse("a".to_string());
    table.open_or_reuse("b".to_string());
    table.set_awaiting(1, "c".to_string());
    assert!(table.awaits(1, &"c".to_string()));
    assert!(!table.awaits(1, &"b".to_string()));
    assert_eq!(table.color_of(1), 1);
    assert_eq!(table.color_of(0), 0);
    assert!(table.is_open(0));
    table.free(0);
    assert!(!table.is_open(0));
    assert!(!table.awaits(0, &"a".to_string()));
}

#[test]
fn settle_lane_reuses_or_opens() {
    let mut table = LaneTable::new();
    assert_eq!(settle_lane(&mut table, &"a".to_string()), (0, 0));
    assert_eq!(settle_lane(&mut table, &"b".to_string()), (1, 1));
    assert_eq!(settle_lane(&mut table, &"a".to_string()), (0, 0));
    assert_eq!(table.lane_count(), 2);
    assert_eq!(table.next_color(), 2);
}

#[test]
fn try_compute_graph_gives_the_graph_of_an_ordinary_history() {
    let commits = vec![commit("a", &["b", "c"]), commit("b", &[]), commit("c", &[])];
    let tips = vec![tip("main", "a")];
    assert_eq!(try_compute_graph(&commits, &tips), Some(compute_graph(&commits, &tips)));
    assert_eq!(try_compute_graph(&[], &[]), Some(vec![]));
}
