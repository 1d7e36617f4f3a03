use git_client::branch_order::branch_precedes;
use git_client::branch_order::sort_branches;
use git_client::merge::BranchInfo;

fn branch(name: &str, is_head: bool, is_remote: bool, is_default: bool) -> BranchInfo {
    BranchInfo {
        name: name.to_string(),
        is_head,
        is_remote,
        is_default,
        upstream: None,
        commit_id: None,
        commit_summary: None,
        ahead: None,
        behind: None,
    }
}

fn tagged(name: &str, tag: &str) -> BranchInfo {
    BranchInfo { commit_id: Some(tag.to_string()), ..branch(name, false, false, false) }
}

fn by_the_usual_rules(a: &BranchInfo, b: &BranchInfo) -> std::cmp::Ordering {
    if a.is_head != b.is_head {
        return if a.is_head { std::cmp::Ordering::Less } else { std::cmp::Ordering::Greater };
    }
    if a.is_remote != b.is_remote {
        return if a.is_remote { std::cmp::Ordering::Greater } else { std::cmp::Ordering::Less };
    }
    if a.is_default != b.is_default {
        return if a.is_default { std::cmp::Ordering::Less } else { std::cmp::Ordering::Greater };
    }
    a.name.cmp(&b.name)
}

fn names(branches: &[BranchInfo]) -> Vec<String> {
    branches.iter().map(|b| b.name.clone()).collect()
}

#[test]
fn head_comes_first_then_local_then_default_then_name() {
    let sorted = sort_branches(vec![
        branch("origin/main", false, true, false),
        branch("zeta", false, false, false),
        branch("main", false, false, true),
        branch("origin/dev", false, true, false),
        branch("work", true, false, false),
        branch("alpha", false, false, false),
        branch("origin/HEAD", false, true, true),
    ]);
    assert_eq!(
        names(&sorted),
        vec!["work", "main", "alpha", "zeta", "origin/HEAD", "origin/dev", "origin/main"]
    );
}

#[test]
fn head_wins_over_every_other_mark() {
    let sorted = sort_branches(vec![
        branch("a", false, false, true),
        branch("z", true, true, false),
    ]);
    assert_eq!(names(&sorted), vec!["z", "a"]);
    assert!(branch_precedes(&sorted[0], &sorted[1]));
    assert!(!branch_precedes(&sorted[1], &sorted[0]));
}

#[test]
fn precedence_of_single_marks() {
    let plain = branch("m", false, false, false);
    assert!(branch_precedes(&branch("m", true, false, false), &plain));
    assert!(branch_precedes(&plain, &branch("m", false, true, false)));
    assert!(branch_precedes(&branch("m", false, false, true), &plain));
    assert!(branch_precedes(&branch("a", false, false, false), &plain));
    assert!(!branch_precedes(&plain, &plain));
    assert!(branch_precedes(&branch("m", false, false, false), &branch("a", false, true, true)));
    assert!(branch_precedes(&branch("m", false, true, true), &branch("a", false, true, false)));
}

#[test]
fn empty_and_single_lists() {
    assert_eq!(sort_branches(vec![]), vec![]);
    let one = vec![branch("only", false, true, false)];
    assert_eq!(sort_branches(one.clone()), one);
}

#[test]
fn branches_of_one_place_keep_their_order() {
    let sorted = sort_branches(vec![
        tagged("same", "first"),
        tagged("b", "x"),
        tagged("same", "second"),
        tagged("a", "y"),
        tagged("same", "third"),
    ]);
    let tags: Vec<String> = sorted.iter().map(|b| b.commit_id.clone().unwrap()).collect();
    assert_eq!(tags, vec!["y", "x", "first", "second", "third"]);
}

#[test]
fn sorting_agrees_with_a_stable_sort_by_the_usual_rules() {
    let mut all = Vec::new();
    let names = ["main", "dev", "Main", "feature/x", "", "main", "é", "release-1.0", "dev"];
    for (i, name) in names.iter().enumerate() {
        for marks in 0..8 {
            let mut b = branch(name, marks & 4 != 0, marks & 2 != 0, marks & 1 != 0);
            b.commit_summary = Some(format!("{}-{}", i, marks));
            all.push(b);
        }
    }
    // A fixed shuffle.
    let mut shuffled = Vec::new();
    let mut k = 0;
    while !all.is_empty() {
        k = (k * 7 + 3) % all.len();
        shuffled.push(all.remove(k));
    }
    let mut expected = shuffled.clone();
    expected.sort_by(by_the_usual_rules);
    assert_eq!(sort_branches(shuffled), expected);
}
