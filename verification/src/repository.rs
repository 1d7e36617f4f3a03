//! What a repository is called and how the state of its files is sorted
//! into staged, unstaged, untracked and conflicted.

use vstd::prelude::*;
use vstd::string::*;
use crate::path_parts::chars_equal;
use crate::path_parts::components;
use crate::path_parts::parts_view;
use crate::path_parts::split_components;
use crate::text::chars_of;
use crate::text::string_of;

verus! {

/// A repository as the client presents it.
#[derive(Debug, Clone, PartialEq, Eq)]
pub struct RepoInfo {
    pub path: String,
    pub name: String,
    pub is_bare: bool,
    pub head_name: Option<String>,
    pub head_oid: Option<String>,
}

/// The state of one file.
#[derive(Debug, Clone, PartialEq, Eq)]
pub struct FileStatus {
    pub path: String,
    pub status: String,
    pub is_staged: bool,
    pub is_modified: bool,
    pub is_new: bool,
    pub is_deleted: bool,
    pub is_renamed: bool,
    pub is_conflicted: bool,
}

/// The files of a repository that differ from the last commit, by kind.
#[derive(Debug, Clone, PartialEq, Eq)]
pub struct RepoStatus {
    pub staged: Vec<FileStatus>,
    pub unstaged: Vec<FileStatus>,
    pub untracked: Vec<FileStatus>,
    pub conflicted: Vec<FileStatus>,
}

/// What the version-control engine reports of one file: how the index
/// differs from the last commit, how the working tree differs from the
/// index, and whether the file is in conflict.
#[derive(Debug, Clone, Copy, PartialEq, Eq, Structural)]
pub struct StatusFlags {
    pub index_new: bool,
    pub index_modified: bool,
    pub index_deleted: bool,
    pub index_renamed: bool,
    pub index_typechange: bool,
    pub wt_new: bool,
    pub wt_modified: bool,
    pub wt_deleted: bool,
    pub wt_typechange: bool,
    pub wt_renamed: bool,
    pub ignored: bool,
    pub conflicted: bool,
}

/// A file and what the engine reports of it.
#[derive(Debug, Clone, PartialEq, Eq)]
pub struct StatusEntry {
    pub path: String,
    pub flags: StatusFlags,
}

impl StatusFlags {
    /// No flag is set.
    pub open spec fn is_clean(self) -> bool {
        !self.index_new && !self.index_modified && !self.index_deleted && !self.index_renamed
            && !self.index_typechange && !self.wt_new && !self.wt_modified && !self.wt_deleted
            && !self.wt_typechange && !self.wt_renamed && !self.ignored && !self.conflicted
    }

    /// The index differs from the last commit.
    pub open spec fn is_staged(self) -> bool {
        self.index_new || self.index_modified || self.index_deleted || self.index_renamed
            || self.index_typechange
    }

    /// The working tree differs from the index in a file that the index
    /// knows.
    pub open spec fn is_unstaged(self) -> bool {
        self.wt_modified || self.wt_deleted || self.wt_renamed || self.wt_typechange
    }

    /// The one word that names the state: the first that applies of
    /// conflicted, new, deleted, renamed, modified and typechange.
    pub open spec fn name(self) -> Seq<char> {
        if self.conflicted {
            "conflicted"@
        } else if self.index_new || self.wt_new {
            "new"@
        } else if self.index_deleted || self.wt_deleted {
            "deleted"@
        } else if self.index_renamed || self.wt_renamed {
            "renamed"@
        } else if self.index_modified || self.wt_modified {
            "modified"@
        } else if self.index_typechange || self.wt_typechange {
            "typechange"@
        } else {
            "unknown"@
        }
    }
}

/// The state of a file as plain values.
pub struct FileStatusView {
    pub path: Seq<char>,
    pub status: Seq<char>,
    pub is_staged: bool,
    pub is_modified: bool,
    pub is_new: bool,
    pub is_deleted: bool,
    pub is_renamed: bool,
    pub is_conflicted: bool,
}

impl View for FileStatus {
    type V = FileStatusView;

    open spec fn view(&self) -> FileStatusView {
        FileStatusView {
            path: self.path@,
            status: self.status@,
            is_staged: self.is_staged,
            is_modified: self.is_modified,
            is_new: self.is_new,
            is_deleted: self.is_deleted,
            is_renamed: self.is_renamed,
            is_conflicted: self.is_conflicted,
        }
    }
}

/// The file states of a sequence, each as plain values.
pub open spec fn file_status_views(files: Seq<FileStatus>) -> Seq<FileStatusView> {
    Seq::new(files.len(), |i: int| files[i]@)
}

/// The state of the file at `path` with flags `flags`, listed as staged or
/// not.
pub open spec fn file_status_of(path: Seq<char>, flags: StatusFlags, staged: bool) -> FileStatusView {
    FileStatusView {
        path,
        status: flags.name(),
        is_staged: staged,
        is_modified: flags.index_modified || flags.wt_modified,
        is_new: flags.index_new || flags.wt_new,
        is_deleted: flags.index_deleted || flags.wt_deleted,
        is_renamed: flags.index_renamed || flags.wt_renamed,
        is_conflicted: flags.conflicted,
    }
}

/// The four lists a file can be sorted into.
#[derive(Debug, Clone, Copy, PartialEq, Eq, Structural)]
pub enum StatusList {
    Staged,
    Unstaged,
    Untracked,
    Conflicted,
}

/// Whether a file with these flags is listed in `list`. A file in conflict
/// is listed as conflicted and nowhere else; any other file is listed in
/// each list whose condition it meets.
pub open spec fn is_listed(flags: StatusFlags, list: StatusList) -> bool {
    match list {
        StatusList::Conflicted => flags.conflicted,
        StatusList::Staged => !flags.conflicted && flags.is_staged(),
        StatusList::Unstaged => !flags.conflicted && flags.is_unstaged(),
        StatusList::Untracked => !flags.conflicted && flags.wt_new,
    }
}

/// An entry as plain values.
pub struct StatusEntryView {
    pub path: Seq<char>,
    pub flags: StatusFlags,
}

impl View for StatusEntry {
    type V = StatusEntryView;

    open spec fn view(&self) -> StatusEntryView {
        StatusEntryView { path: self.path@, flags: self.flags }
    }
}

/// The entries of a sequence, each as plain values.
pub open spec fn entry_views(entries: Seq<StatusEntry>) -> Seq<StatusEntryView> {
    Seq::new(entries.len(), |i: int| entries[i]@)
}

/// What `list` holds of the first `n` entries, in the order of the entries.
/// Only the staged list marks its files as staged.
pub open spec fn listed(entries: Seq<StatusEntryView>, list: StatusList, n: int) -> Seq<
    FileStatusView,
>
    decreases n,
{
    if n <= 0 {
        Seq::empty()
    } else {
        let before = listed(entries, list, n - 1);
        let entry = entries[n - 1];
        if is_listed(entry.flags, list) {
            before.push(file_status_of(entry.path, entry.flags, list == StatusList::Staged))
        } else {
            before
        }
    }
}

/// The one word that names the state of a file.
pub fn format_status(status: StatusFlags) -> (name: String)
    ensures
        name@ == status.name(),
{
    if status.conflicted {
        String::from_str("conflicted")
    } else if status.index_new || status.wt_new {
        String::from_str("new")
    } else if status.index_deleted || status.wt_deleted {
        String::from_str("deleted")
    } else if status.index_renamed || status.wt_renamed {
        String::from_str("renamed")
    } else if status.index_modified || status.wt_modified {
        String::from_str("modified")
    } else if status.index_typechange || status.wt_typechange {
        String::from_str("typechange")
    } else {
        String::from_str("unknown")
    }
}

/// The state of the file at `path`, listed as staged or not.
pub fn create_file_status(path: &str, status: StatusFlags, staged: bool) -> (file: FileStatus)
    ensures
        file@ == file_status_of(path@, status, staged),
{
    FileStatus {
        path: String::from_str(path),
        status: format_status(status),
        is_staged: staged,
        is_modified: status.index_modified || status.wt_modified,
        is_new: status.index_new || status.wt_new,
        is_deleted: status.index_deleted || status.wt_deleted,
        is_renamed: status.index_renamed || status.wt_renamed,
        is_conflicted: status.conflicted,
    }
}

/// Sorts the reported files into the four lists, each in the order of the
/// report.
pub fn sort_status(entries: &[StatusEntry]) -> (status: RepoStatus)
    ensures
        file_status_views(status.staged@) == listed(
            entry_views(entries@),
            StatusList::Staged,
            entries@.len() as int,
        ),
        file_status_views(status.unstaged@) == listed(
            entry_views(entries@),
            StatusList::Unstaged,
            entries@.len() as int,
        ),
        file_status_views(status.untracked@) == listed(
            entry_views(entries@),
            StatusList::Untracked,
            entries@.len() as int,
        ),
        file_status_views(status.conflicted@) == listed(
            entry_views(entries@),
            StatusList::Conflicted,
            entries@.len() as int,
        ),
{
    let ghost all = entry_views(entries@);
    let mut staged: Vec<FileStatus> = Vec::new();
    let mut unstaged: Vec<FileStatus> = Vec::new();
    let mut untracked: Vec<FileStatus> = Vec::new();
    let mut conflicted: Vec<FileStatus> = Vec::new();
    let mut i: usize = 0;
    while i < entries.len()
        invariant
            i <= entries@.len(),
            all == entry_views(entries@),
            file_status_views(staged@) =~= listed(all, StatusList::Staged, i as int),
            file_status_views(unstaged@) =~= listed(all, StatusList::Unstaged, i as int),
            file_status_views(untracked@) =~= listed(all, StatusList::Untracked, i as int),
            file_status_views(conflicted@) =~= listed(all, StatusList::Conflicted, i as int),
        decreases entries@.len() - i,
    {
        let entry = &entries[i];
        let flags = entry.flags;
        assert(all[i as int] == entry@);
        if flags.conflicted {
            conflicted.push(create_file_status(entry.path.as_str(), flags, false));
        } else {
            if flags.index_new || flags.index_modified || flags.index_deleted
                || flags.index_renamed || flags.index_typechange {
                staged.push(create_file_status(entry.path.as_str(), flags, true));
            }
            if flags.wt_modified || flags.wt_deleted || flags.wt_renamed || flags.wt_typechange {
                unstaged.push(create_file_status(entry.path.as_str(), flags, false));
            }
            if flags.wt_new {
                untracked.push(create_file_status(entry.path.as_str(), flags, false));
            }
        }
        i += 1;
    }
    RepoStatus { staged, unstaged, untracked, conflicted }
}

/// Whether any reported file has a flag set.
pub fn is_worktree_dirty(statuses: &[StatusFlags]) -> (dirty: bool)
    ensures
        dirty == exists|i: int| 0 <= i < statuses@.len() && !(#[trigger] statuses@[i]).is_clean(),
{
    let mut i: usize = 0;
    while i < statuses.len()
        invariant
            i <= statuses@.len(),
            forall|j: int| 0 <= j < i ==> (#[trigger] statuses@[j]).is_clean(),
        decreases statuses@.len() - i,
    {
        let s = statuses[i];
        if s.index_new || s.index_modified || s.index_deleted || s.index_renamed
            || s.index_typechange || s.wt_new || s.wt_modified || s.wt_deleted || s.wt_typechange
            || s.wt_renamed || s.ignored || s.conflicted {
            return true;
        }
        i += 1;
    }
    false
}

/// The last component of `path` where it names a file or directory: where
/// the path has a last component and that is neither `.` nor `..`.
pub open spec fn file_name(path: Seq<char>) -> Option<Seq<char>> {
    let parts = components(path);
    if parts.len() > 0 && parts.last() != seq!['.'] && parts.last() != seq!['.', '.'] {
        Some(parts.last())
    } else {
        None
    }
}

/// The name a repository at `path` is shown under: the last component of
/// the path, or `Unknown` where the path has none.
pub open spec fn repo_name_of(path: Seq<char>) -> Seq<char> {
    match file_name(path) {
        Some(name) => name,
        None => "Unknown"@,
    }
}

/// The name a repository at `path` is shown under.
pub fn repo_name(path: &str) -> (name: String)
    ensures
        name@ == repo_name_of(path@),
{
    let parts = split_components(path);
    if parts.len() == 0 {
        return String::from_str("Unknown");
    }
    let last = &parts[parts.len() - 1];
    assert(components(path@).last() == last@) by {
        assert(parts_view(parts@)[parts@.len() - 1] == last@);
    }
    let dot = chars_of(".");
    let dots = chars_of("..");
    proof {
        reveal_strlit(".");
        reveal_strlit("..");
        assert(dot@ =~= seq!['.']);
        assert(dots@ =~= seq!['.', '.']);
    }
    if chars_equal(last.as_slice(), dot.as_slice()) || chars_equal(
        last.as_slice(),
        dots.as_slice(),
    ) {
        return String::from_str("Unknown");
    }
    string_of(last.as_slice())
}

/// Describes the repository at `path`; its name is taken from the path.
pub fn describe_repo(
    path: String,
    is_bare: bool,
    head_name: Option<String>,
    head_oid: Option<String>,
) -> (info: RepoInfo)
    ensures
        info.path == path,
        info.name@ == repo_name_of(path@),
        info.is_bare == is_bare,
        info.head_name == head_name,
        info.head_oid == head_oid,
{
    let name = repo_name(path.as_str());
    RepoInfo { path, name, is_bare, head_name, head_oid }
}

} // verus!
