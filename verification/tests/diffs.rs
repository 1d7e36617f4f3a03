use git_client::commit_id::parse_commit_id;
use git_client::commit_id::parse_reset_commit_id;
use git_client::commit_id::short_id;
use git_client::details::ChangeCollector;
use git_client::details::FileChange;
use git_client::diff::delta_status;
use git_client::diff::push_hunk;
use git_client::diff::push_line;
use git_client::diff::DeltaInfo;
use git_client::diff::DeltaKind;
use git_client::diff::DiffHunk;
use git_client::diff::DiffLine;
use git_client::diff::FileDiff;
use git_client::diff_collect::CommitDiffCollector;
use git_client::diff_collect::FileDiffCollector;
use git_client::error::GitClientError;
use git_client::history::CommitInfo;

fn delta(kind: DeltaKind, new_path: Option<&str>, old_path: Option<&str>) -> DeltaInfo {
    DeltaInfo {
        kind,
        new_path: new_path.map(|p| p.to_string()),
        old_path: old_path.map(|p| p.to_string()),
        new_is_binary: false,
        old_is_binary: false,
    }
}

fn line(origin: char, content: &str) -> DiffLine {
    DiffLine { origin, content: content.to_string(), old_lineno: Some(1), new_lineno: None }
}

fn hunk(old_start: u32, header: &str, lines: Vec<DiffLine>) -> DiffHunk {
    DiffHunk { old_start, old_lines: 2, new_start: 3, new_lines: 4, header: header.to_string(), lines }
}

#[test]
fn delta_kinds_have_names() {
    assert_eq!(delta_status(DeltaKind::Added), "added");
    assert_eq!(delta_status(DeltaKind::Deleted), "deleted");
    assert_eq!(delta_status(DeltaKind::Modified), "modified");
    assert_eq!(delta_status(DeltaKind::Renamed), "renamed");
    assert_eq!(delta_status(DeltaKind::Copied), "copied");
    assert_eq!(delta_status(DeltaKind::Other), "unknown");
}

#[test]
fn hunks_and_lines_are_added_at_the_end() {
    let mut h = hunk(1, "@@", vec![line(' ', "a")]);
    push_line(&mut h, line('+', "b"));
    assert_eq!(h.lines, vec![line(' ', "a"), line('+', "b")]);
    let mut f = FileDiff {
        path: "p".to_string(),
        old_path: None,
        status: "modified".to_string(),
        hunks: vec![],
        is_binary: false,
    };
    push_hunk(&mut f, h.clone());
    push_hunk(&mut f, hunk(9, "@@ 9", vec![]));
    assert_eq!(f.hunks, vec![h, hunk(9, "@@ 9", vec![])]);
    assert_eq!(f.path, "p");
}

#[test]
fn commit_diff_of_an_empty_walk() {
    let diff = CommitDiffCollector::new().finish("abc");
    assert_eq!(diff.commit_id, "abc");
    assert!(diff.files.is_empty());
    assert_eq!(diff.stats.files_changed, 0);
    assert_eq!(diff.stats.insertions, 0);
    assert_eq!(diff.stats.deletions, 0);
}

#[test]
fn commit_diff_collects_files_hunks_and_lines() {
    let mut c = CommitDiffCollector::new();
    c.on_file(delta(DeltaKind::Modified, Some("a.rs"), Some("a.rs")));
    c.on_hunk(1, 2, 3, 4, "@@ one".to_string());
    c.on_line(line('+', "x"));
    c.on_line(line('-', "y"));
    c.on_line(line(' ', "z"));
    c.on_hunk(10, 2, 3, 4, "@@ two".to_string());
    c.on_line(line('+', "w"));
    c.on_file(delta(DeltaKind::Deleted, None, Some("gone.rs")));
    c.on_file(DeltaInfo {
        kind: DeltaKind::Added,
        new_path: Some("img.png".to_string()),
        old_path: None,
        new_is_binary: true,
        old_is_binary: false,
    });
    c.on_file(delta(DeltaKind::Other, None, None));
    c.on_binary();
    let diff = c.finish("deadbeef");

    assert_eq!(diff.commit_id, "deadbeef");
    assert_eq!(diff.stats.files_changed, 4);
    assert_eq!(diff.stats.insertions, 2);
    assert_eq!(diff.stats.deletions, 1);
    assert_eq!(diff.files.len(), 4);

    assert_eq!(
        diff.files[0],
        FileDiff {
            path: "a.rs".to_string(),
            old_path: Some("a.rs".to_string()),
            status: "modified".to_string(),
            hunks: vec![
                hunk(1, "@@ one", vec![line('+', "x"), line('-', "y"), line(' ', "z")]),
                hunk(10, "@@ two", vec![line('+', "w")]),
            ],
            is_binary: false,
        }
    );
    assert_eq!(diff.files[1].path, "gone.rs");
    assert_eq!(diff.files[1].old_path, Some("gone.rs".to_string()));
    assert_eq!(diff.files[1].status, "deleted");
    assert!(diff.files[1].hunks.is_empty());
    assert_eq!(diff.files[2].path, "img.png");
    assert_eq!(diff.files[2].status, "added");
    assert!(diff.files[2].is_binary);
    assert_eq!(diff.files[3].path, "");
    assert_eq!(diff.files[3].old_path, None);
    assert_eq!(diff.files[3].status, "unknown");
    assert!(diff.files[3].is_binary);
}

#[test]
fn commit_diff_ignores_lines_and_marks_before_anything_opens() {
    let mut c = CommitDiffCollector::new();
    c.on_line(line('+', "lost"));
    c.on_binary();
    c.on_hunk(1, 2, 3, 4, "@@ stray".to_string());
    c.on_line(line('+', "counted"));
    c.on_hunk(5, 2, 3, 4, "@@ next".to_string());
    c.on_line(line('-', "kept"));
    c.on_file(delta(DeltaKind::Added, Some("f"), None));
    c.on_line(line('-', "to the stray hunk"));
    let diff = c.finish("id");
    // The hunk that was pending when the first file opened stays pending and
    // ends up in that file.
    assert_eq!(diff.files.len(), 1);
    assert_eq!(
        diff.files[0].hunks,
        vec![hunk(5, "@@ next", vec![line('-', "kept"), line('-', "to the stray hunk")])]
    );
    assert_eq!(diff.stats.insertions, 1);
    assert_eq!(diff.stats.deletions, 2);
}

#[test]
fn file_diff_of_an_empty_walk() {
    let diff = FileDiffCollector::new("src/lib.rs").finish();
    assert_eq!(
        diff,
        FileDiff {
            path: "src/lib.rs".to_string(),
            old_path: None,
            status: "unknown".to_string(),
            hunks: vec![],
            is_binary: false,
        }
    );
}

#[test]
fn file_diff_collects_hunks_and_keeps_its_path() {
    let mut c = FileDiffCollector::new("new.rs");
    c.on_line(line('+', "lost"));
    c.on_file(DeltaInfo {
        kind: DeltaKind::Renamed,
        new_path: Some("other.rs".to_string()),
        old_path: Some("old.rs".to_string()),
        new_is_binary: false,
        old_is_binary: true,
    });
    c.on_hunk(1, 2, 3, 4, "@@ a".to_string());
    c.on_line(line('+', "x"));
    c.on_hunk(7, 2, 3, 4, "@@ b".to_string());
    c.on_line(line('-', "y"));
    c.on_line(line('-', "z"));
    let diff = c.finish();
    assert_eq!(
        diff,
        FileDiff {
            path: "new.rs".to_string(),
            old_path: Some("old.rs".to_string()),
            status: "renamed".to_string(),
            hunks: vec![
                hunk(1, "@@ a", vec![line('+', "x")]),
                hunk(7, "@@ b", vec![line('-', "y"), line('-', "z")]),
            ],
            is_binary: true,
        }
    );
}

#[test]
fn file_diff_binary_mark_and_later_report() {
    let mut c = FileDiffCollector::new("b");
    c.on_binary();
    assert!(c.finish().is_binary);
    let mut c = FileDiffCollector::new("b");
    c.on_binary();
    c.on_file(delta(DeltaKind::Modified, Some("b"), Some("b")));
    let diff = c.finish();
    assert!(!diff.is_binary);
    assert_eq!(diff.status, "modified");
}

fn commit(id: &str) -> CommitInfo {
    CommitInfo {
        id: id.to_string(),
        short_id: short_id(id),
        message: "m".to_string(),
        summary: "s".to_string(),
        author_name: "a".to_string(),
        author_email: "a@x".to_string(),
        committer_name: "c".to_string(),
        committer_email: "c@x".to_string(),
        time: 0,
        parent_ids: vec![],
    }
}

#[test]
fn commit_details_count_lines_per_file() {
    let mut c = ChangeCollector::new();
    c.on_line('+');
    c.on_file(delta(DeltaKind::Modified, Some("a"), Some("a")));
    c.on_line('+');
    c.on_line('+');
    c.on_line('-');
    c.on_line(' ');
    c.on_file(delta(DeltaKind::Deleted, None, Some("gone")));
    c.on_line('-');
    c.on_file(delta(DeltaKind::Renamed, Some("new"), Some("old")));
    c.on_line('+');
    let c1 = commit("0123456789abcdef");
    let details = c.finish(c1.clone());
    assert_eq!(details.commit, c1);
    assert_eq!(
        details.files_changed,
        vec![
            FileChange {
                path: "a".to_string(),
                old_path: Some("a".to_string()),
                status: "modified".to_string(),
                additions: 2,
                deletions: 2,
            },
            FileChange {
                path: "new".to_string(),
                old_path: Some("old".to_string()),
                status: "renamed".to_string(),
                additions: 1,
                deletions: 0,
            },
        ]
    );
    assert_eq!(details.stats.files_changed, 2);
    assert_eq!(details.stats.insertions, 3);
    assert_eq!(details.stats.deletions, 2);
}

#[test]
fn commit_details_of_an_empty_walk() {
    let details = ChangeCollector::new().finish(commit("ff"));
    assert!(details.files_changed.is_empty());
    assert_eq!(details.stats.files_changed, 0);
    assert_eq!(details.stats.insertions, 0);
    assert_eq!(details.stats.deletions, 0);
}

#[test]
fn short_ids() {
    assert_eq!(short_id("0123456789abcdef"), "0123456");
    assert_eq!(short_id("0123456"), "0123456");
    assert_eq!(short_id("012"), "012");
    assert_eq!(short_id(""), "");
    assert_eq!(short_id("äöüäöüäöü"), "äöüäöüä");
}

#[test]
fn commit_ids_are_read_and_completed() {
    assert_eq!(
        parse_commit_id("0123456789abcdef0123456789abcdef01234567"),
        Ok("0123456789abcdef0123456789abcdef01234567".to_string())
    );
    assert_eq!(
        parse_commit_id("ABCDEF"),
        Ok("abcdef0000000000000000000000000000000000".to_string())
    );
    assert_eq!(
        parse_commit_id("a"),
        Ok("a000000000000000000000000000000000000000".to_string())
    );
    assert_eq!(
        parse_commit_id("0123456789ABCDEFabcdef0123456789AbCdEf01"),
        Ok("0123456789abcdefabcdef0123456789abcdef01".to_string())
    );
}

#[test]
fn texts_that_are_no_commit_id_are_refused() {
    for text in ["", "xyz", "12 34", "0123456789abcdef0123456789abcdef012345678", "abcg", "é"] {
        match parse_commit_id(text) {
            Err(GitClientError::Operation(detail)) => assert!(!detail.is_empty()),
            other => panic!("{:?}", other),
        }
    }
}

#[test]
fn commit_id_errors_carry_the_engine_wording() {
    let plain = match parse_commit_id("zz") {
        Err(GitClientError::Operation(detail)) => detail,
        other => panic!("{:?}", other),
    };
    assert_eq!(plain, git2::Oid::from_str("zz").unwrap_err().to_string());
    assert_eq!(
        parse_reset_commit_id("zz"),
        Err(GitClientError::Operation(format!("Invalid commit ID: {}", plain)))
    );
    assert_eq!(
        parse_reset_commit_id("12ab"),
        Ok("12ab000000000000000000000000000000000000".to_string())
    );
    let again = match parse_commit_id("zz") {
        Err(GitClientError::Operation(detail)) => detail,
        other => panic!("{:?}", other),
    };
    assert_eq!(plain, again);
}

#[test]
fn collectors_tell_their_counts() {
    let mut c = CommitDiffCollector::new();
    assert_eq!((c.insertions(), c.deletions()), (0, 0));
    c.on_hunk(1, 1, 1, 1, "@@".to_string());
    c.on_line(line('+', "a"));
    c.on_line(line('+', "b"));
    c.on_line(line('-', "c"));
    c.on_line(line(' ', "d"));
    assert_eq!((c.insertions(), c.deletions()), (2, 1));

    let mut d = ChangeCollector::new();
    d.on_line('+');
    assert_eq!((d.insertions(), d.deletions()), (0, 0));
    d.on_file(delta(DeltaKind::Added, Some("f"), None));
    d.on_line('+');
    d.on_line('-');
    d.on_line('-');
    assert_eq!((d.insertions(), d.deletions()), (1, 2));
}
