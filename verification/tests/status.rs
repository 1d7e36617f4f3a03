use git_client::error::GitClientError;
use git_client::index::discard_plan;
use git_client::index::parse_reset_mode;
use git_client::index::DiscardPlan;
use git_client::index::ResetMode;
use git_client::repository::create_file_status;
use git_client::repository::format_status;
use git_client::repository::is_worktree_dirty;
use git_client::repository::sort_status;
use git_client::repository::FileStatus;
use git_client::repository::StatusEntry;
use git_client::repository::StatusFlags;

fn clean() -> StatusFlags {
    StatusFlags {
        index_new: false,
        index_modified: false,
        index_deleted: false,
        index_renamed: false,
        index_typechange: false,
        wt_new: false,
        wt_modified: false,
        wt_deleted: false,
        wt_typechange: false,
        wt_renamed: false,
        ignored: false,
        conflicted: false,
    }
}

fn entry(path: &str, flags: StatusFlags) -> StatusEntry {
    StatusEntry { path: path.to_string(), flags }
}

#[test]
fn status_names_follow_their_priority() {
    assert_eq!(format_status(clean()), "unknown");
    assert_eq!(format_status(StatusFlags { conflicted: true, index_new: true, ..clean() }), "conflicted");
    assert_eq!(format_status(StatusFlags { index_new: true, wt_deleted: true, ..clean() }), "new");
    assert_eq!(format_status(StatusFlags { wt_new: true, ..clean() }), "new");
    assert_eq!(format_status(StatusFlags { index_deleted: true, wt_renamed: true, ..clean() }), "deleted");
    assert_eq!(format_status(StatusFlags { wt_deleted: true, ..clean() }), "deleted");
    assert_eq!(format_status(StatusFlags { index_renamed: true, wt_modified: true, ..clean() }), "renamed");
    assert_eq!(format_status(StatusFlags { wt_renamed: true, ..clean() }), "renamed");
    assert_eq!(format_status(StatusFlags { index_modified: true, wt_typechange: true, ..clean() }), "modified");
    assert_eq!(format_status(StatusFlags { wt_modified: true, ..clean() }), "modified");
    assert_eq!(format_status(StatusFlags { index_typechange: true, ..clean() }), "typechange");
    assert_eq!(format_status(StatusFlags { wt_typechange: true, ..clean() }), "typechange");
    assert_eq!(format_status(StatusFlags { ignored: true, ..clean() }), "unknown");
}

#[test]
fn file_status_reports_each_flag() {
    let flags = StatusFlags { index_modified: true, wt_deleted: true, ..clean() };
    assert_eq!(
        create_file_status("src/a.rs", flags, true),
        FileStatus {
            path: "src/a.rs".to_string(),
            status: "deleted".to_string(),
            is_staged: true,
            is_modified: true,
            is_new: false,
            is_deleted: true,
            is_renamed: false,
            is_conflicted: false,
        }
    );
    let flags = StatusFlags { wt_new: true, index_renamed: true, conflicted: true, ..clean() };
    let file = create_file_status("b", flags, false);
    assert_eq!(file.status, "conflicted");
    assert!(!file.is_staged);
    assert!(file.is_new);
    assert!(file.is_renamed);
    assert!(file.is_conflicted);
    assert!(!file.is_modified);
    assert!(!file.is_deleted);
}

#[test]
fn status_is_sorted_into_four_lists() {
    let entries = vec![
        entry("staged.rs", StatusFlags { index_modified: true, ..clean() }),
        entry("both.rs", StatusFlags { index_new: true, wt_modified: true, ..clean() }),
        entry("untracked.rs", StatusFlags { wt_new: true, ..clean() }),
        entry("conflict.rs", StatusFlags { conflicted: true, index_modified: true, wt_new: true, ..clean() }),
        entry("worktree.rs", StatusFlags { wt_deleted: true, ..clean() }),
        entry("clean.rs", clean()),
        entry("typed.rs", StatusFlags { index_typechange: true, wt_typechange: true, ..clean() }),
    ];
    let status = sort_status(&entries);
    let names = |files: &Vec<FileStatus>| files.iter().map(|f| f.path.clone()).collect::<Vec<_>>();
    assert_eq!(names(&status.staged), vec!["staged.rs", "both.rs", "typed.rs"]);
    assert_eq!(names(&status.unstaged), vec!["both.rs", "worktree.rs", "typed.rs"]);
    assert_eq!(names(&status.untracked), vec!["untracked.rs"]);
    assert_eq!(names(&status.conflicted), vec!["conflict.rs"]);
    assert!(status.staged.iter().all(|f| f.is_staged));
    assert!(status.unstaged.iter().all(|f| !f.is_staged));
    assert!(status.untracked.iter().all(|f| !f.is_staged));
    assert!(status.conflicted.iter().all(|f| !f.is_staged));
    assert_eq!(status.staged[1].status, "new");
    assert_eq!(status.unstaged[0].status, "new");
    assert_eq!(status.conflicted[0].status, "conflicted");
}

#[test]
fn empty_status_gives_empty_lists() {
    let status = sort_status(&[]);
    assert!(status.staged.is_empty());
    assert!(status.unstaged.is_empty());
    assert!(status.untracked.is_empty());
    assert!(status.conflicted.is_empty());
}

#[test]
fn worktree_is_dirty_when_any_flag_is_set() {
    assert!(!is_worktree_dirty(&[]));
    assert!(!is_worktree_dirty(&[clean(), clean()]));
    assert!(is_worktree_dirty(&[clean(), StatusFlags { wt_new: true, ..clean() }]));
    assert!(is_worktree_dirty(&[StatusFlags { ignored: true, ..clean() }]));
    assert!(is_worktree_dirty(&[StatusFlags { conflicted: true, ..clean() }, clean()]));
}

#[test]
fn new_files_are_removed_and_known_files_checked_out() {
    assert_eq!(discard_plan(clean()), DiscardPlan::Checkout);
    assert_eq!(
        discard_plan(StatusFlags { wt_modified: true, index_modified: true, ..clean() }),
        DiscardPlan::Checkout
    );
    assert_eq!(
        discard_plan(StatusFlags { index_new: true, ..clean() }),
        DiscardPlan::RemoveNew { unstage: true, delete: false }
    );
    assert_eq!(
        discard_plan(StatusFlags { wt_new: true, ..clean() }),
        DiscardPlan::RemoveNew { unstage: false, delete: true }
    );
    assert_eq!(
        discard_plan(StatusFlags { wt_new: true, index_new: true, wt_modified: true, ..clean() }),
        DiscardPlan::RemoveNew { unstage: true, delete: true }
    );
}

#[test]
fn reset_modes() {
    assert_eq!(parse_reset_mode("soft"), Ok(ResetMode::Soft));
    assert_eq!(parse_reset_mode("hard"), Ok(ResetMode::Hard));
    assert_eq!(
        parse_reset_mode("mixed"),
        Err(GitClientError::Operation(
            "Invalid reset mode: mixed. Expected 'soft' or 'hard'.".to_string()
        ))
    );
    assert_eq!(
        parse_reset_mode(""),
        Err(GitClientError::Operation(
            "Invalid reset mode: . Expected 'soft' or 'hard'.".to_string()
        ))
    );
    assert!(parse_reset_mode("Soft").is_err());
    assert!(parse_reset_mode("hard ").is_err());
}
