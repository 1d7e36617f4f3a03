//! The details of one commit: the files it changed and how many lines it
//! added and removed.

use vstd::prelude::*;
use crate::diff::delta_status;
use crate::text::text_of;
use crate::diff::DeltaInfo;
use crate::diff::DeltaView;
use crate::history::CommitInfo;

verus! {

/// A commit with what it changed.
#[derive(Debug, Clone, PartialEq, Eq)]
pub struct CommitDetails {
    pub commit: CommitInfo,
    pub files_changed: Vec<FileChange>,
    pub stats: CommitStats,
}

/// One file that a commit changed.
#[derive(Debug, Clone, PartialEq, Eq)]
pub struct FileChange {
    pub path: String,
    pub old_path: Option<String>,
    pub status: String,
    pub additions: usize,
    pub deletions: usize,
}

/// How much a commit changed.
#[derive(Debug, Clone, PartialEq, Eq)]
pub struct CommitStats {
    pub files_changed: usize,
    pub insertions: usize,
    pub deletions: usize,
}

/// A changed file as plain values.
pub struct FileChangeView {
    pub path: Seq<char>,
    pub old_path: Option<Seq<char>>,
    pub status: Seq<char>,
    pub additions: nat,
    pub deletions: nat,
}

impl View for FileChange {
    type V = FileChangeView;

    open spec fn view(&self) -> FileChangeView {
        FileChangeView {
            path: self.path@,
            old_path: text_of(self.old_path),
            status: self.status@,
            additions: self.additions as nat,
            deletions: self.deletions as nat,
        }
    }
}

/// The changed files of a sequence, each as plain values.
pub open spec fn change_views(files: Seq<FileChange>) -> Seq<FileChangeView> {
    Seq::new(files.len(), |i: int| files[i]@)
}

/// What a collector of a commit's details holds: the files reported so far
/// and the counts of added and removed lines.
pub struct ChangeState {
    pub files: Seq<FileChangeView>,
    pub insertions: nat,
    pub deletions: nat,
}

impl ChangeState {
    /// Nothing reported yet.
    pub open spec fn start() -> ChangeState {
        ChangeState { files: Seq::empty(), insertions: 0, deletions: 0 }
    }

    /// No file has more added or removed lines than were counted in all.
    pub open spec fn wf(self) -> bool {
        forall|i: int|
            0 <= i < self.files.len() ==> (#[trigger] self.files[i]).additions <= self.insertions
                && self.files[i].deletions <= self.deletions
    }

    /// A file is reported: where it has a new path it is listed under it,
    /// with no lines counted yet. A file without a new path is not listed.
    pub open spec fn after_file(self, delta: DeltaView) -> ChangeState {
        match delta.new_path {
            Some(path) => ChangeState {
                files: self.files.push(
                    FileChangeView {
                        path,
                        old_path: delta.old_path,
                        status: delta.kind.name(),
                        additions: 0,
                        deletions: 0,
                    },
                ),
                ..self
            },
            None => self,
        }
    }

    /// A line is reported: where it is an added or a removed line it counts
    /// for the file listed last and for the commit. Before any file is
    /// listed, nothing is counted.
    pub open spec fn after_line(self, origin: char) -> ChangeState {
        if self.files.len() == 0 {
            self
        } else {
            let last = self.files.last();
            if origin == '+' {
                ChangeState {
                    files: self.files.drop_last().push(
                        FileChangeView { additions: last.additions + 1, ..last },
                    ),
                    insertions: self.insertions + 1,
                    ..self
                }
            } else if origin == '-' {
                ChangeState {
                    files: self.files.drop_last().push(
                        FileChangeView { deletions: last.deletions + 1, ..last },
                    ),
                    deletions: self.deletions + 1,
                    ..self
                }
            } else {
                self
            }
        }
    }
}

/// Collects the details of one commit from a walk over its diff.
pub struct ChangeCollector {
    files: Vec<FileChange>,
    insertions: usize,
    deletions: usize,
}

impl View for ChangeCollector {
    type V = ChangeState;

    closed spec fn view(&self) -> ChangeState {
        ChangeState {
            files: change_views(self.files@),
            insertions: self.insertions as nat,
            deletions: self.deletions as nat,
        }
    }
}

impl ChangeCollector {
    /// A collector that has been told nothing yet.
    pub fn new() -> (collector: ChangeCollector)
        ensures
            collector@ == ChangeState::start(),
            collector@.wf(),
    {
        let collector = ChangeCollector { files: Vec::new(), insertions: 0, deletions: 0 };
        assert(collector@.files =~= ChangeState::start().files);
        collector
    }

    /// The added lines counted so far.
    pub fn insertions(&self) -> (count: usize)
        ensures
            count == self@.insertions,
    {
        self.insertions
    }

    /// The removed lines counted so far.
    pub fn deletions(&self) -> (count: usize)
        ensures
            count == self@.deletions,
    {
        self.deletions
    }

    /// Takes the report of a file.
    pub fn on_file(&mut self, delta: DeltaInfo)
        requires
            old(self)@.wf(),
        ensures
            final(self)@ == old(self)@.after_file(delta@),
            final(self)@.wf(),
    {
        let status = delta_status(delta.kind);
        match delta.new_path {
            Some(path) => {
                let ghost before = change_views(self.files@);
                let file = FileChange {
                    path,
                    old_path: delta.old_path,
                    status,
                    additions: 0,
                    deletions: 0,
                };
                self.files.push(file);
                assert(change_views(self.files@) =~= before.push(file@));
            },
            None => {},
        }
    }

    /// Takes the report of a line with the given origin.
    pub fn on_line(&mut self, origin: char)
        requires
            old(self)@.wf(),
            old(self)@.insertions < usize::MAX,
            old(self)@.deletions < usize::MAX,
        ensures
            final(self)@ == old(self)@.after_line(origin),
            final(self)@.wf(),
    {
        let ghost before = change_views(self.files@);
        if origin != '+' && origin != '-' {
            return ;
        }
        match self.files.pop() {
            Some(file) => {
                let mut file = file;
                assert(before.last() == file@);
                assert(change_views(self.files@) =~= before.drop_last());
                if origin == '+' {
                    file.additions = file.additions + 1;
                    self.insertions = self.insertions + 1;
                } else {
                    file.deletions = file.deletions + 1;
                    self.deletions = self.deletions + 1;
                }
                self.files.push(file);
                assert(change_views(self.files@) =~= before.drop_last().push(file@));
            },
            None => {
                assert(change_views(self.files@) =~= before);
            },
        }
    }

    /// Ends the walk and hands out the details of `commit`.
    pub fn finish(self, commit: CommitInfo) -> (details: CommitDetails)
        ensures
            details.commit == commit,
            change_views(details.files_changed@) == self@.files,
            details.stats.files_changed == self@.files.len(),
            details.stats.insertions == self@.insertions,
            details.stats.deletions == self@.deletions,
    {
        let files_changed = self.files.len();
        CommitDetails {
            commit,
            files_changed: self.files,
            stats: CommitStats {
                files_changed,
                insertions: self.insertions,
                deletions: self.deletions,
            },
        }
    }
}

} // verus!
