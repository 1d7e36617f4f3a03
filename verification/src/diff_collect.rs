//! Collectors for a walk over a diff. The walk reports files, binary
//! contents, hunks and lines in order; a collector takes each report and
//! hands out the finished diff at the end.

use vstd::prelude::*;
use vstd::string::*;
use crate::diff::delta_status;
use crate::diff::file_views;
use crate::diff::opened_file;
use crate::diff::opened_hunk;
use crate::diff::push_hunk;
use crate::diff::push_line;
use crate::diff::CommitDiff;
use crate::diff::CommitDiffView;
use crate::diff::DeltaInfo;
use crate::diff::DeltaView;
use crate::diff::DiffHunk;
use crate::diff::DiffHunkView;
use crate::diff::DiffLine;
use crate::diff::DiffLineView;
use crate::diff::DiffStats;
use crate::diff::FileDiff;
use crate::diff::FileDiffView;

verus! {

/// What a collector of a commit's diff holds: the files that are complete,
/// the file and the hunk being read, and the counts of added and removed
/// lines.
pub struct CommitDiffState {
    pub files: Seq<FileDiffView>,
    pub current_file: Option<FileDiffView>,
    pub current_hunk: Option<DiffHunkView>,
    pub insertions: nat,
    pub deletions: nat,
}

impl CommitDiffState {
    /// Nothing reported yet.
    pub open spec fn start() -> CommitDiffState {
        CommitDiffState {
            files: Seq::empty(),
            current_file: None,
            current_hunk: None,
            insertions: 0,
            deletions: 0,
        }
    }

    /// The file being read is complete: it takes the pending hunk and joins
    /// the files. Where no file is being read, nothing changes.
    pub open spec fn closed(self) -> CommitDiffState {
        match self.current_file {
            Some(file) => CommitDiffState {
                files: self.files.push(file.with_pending(self.current_hunk)),
                current_file: None,
                current_hunk: None,
                ..self
            },
            None => self,
        }
    }

    /// A file is reported: the one before is complete, and a record opens
    /// for the new one.
    pub open spec fn after_file(self, delta: DeltaView) -> CommitDiffState {
        CommitDiffState { current_file: Some(opened_file(delta)), ..self.closed() }
    }

    /// Binary content is reported: the file being read is binary.
    pub open spec fn after_binary(self) -> CommitDiffState {
        match self.current_file {
            Some(file) => CommitDiffState {
                current_file: Some(FileDiffView { is_binary: true, ..file }),
                ..self
            },
            None => self,
        }
    }

    /// A hunk is reported: the file being read takes the pending hunk, and
    /// the new hunk is pending. Where no file is being read, the pending
    /// hunk is dropped.
    pub open spec fn after_hunk(self, hunk: DiffHunkView) -> CommitDiffState {
        CommitDiffState {
            current_file: match self.current_file {
                Some(file) => Some(file.with_pending(self.current_hunk)),
                None => None,
            },
            current_hunk: Some(hunk),
            ..self
        }
    }

    /// A line is reported: the pending hunk takes it, and it is counted
    /// where it is an added or a removed line. Where no hunk is pending,
    /// nothing changes.
    pub open spec fn after_line(self, line: DiffLineView) -> CommitDiffState {
        match self.current_hunk {
            Some(hunk) => CommitDiffState {
                current_hunk: Some(hunk.with_line(line)),
                insertions: if line.origin == '+' {
                    self.insertions + 1
                } else {
                    self.insertions
                },
                deletions: if line.origin == '-' {
                    self.deletions + 1
                } else {
                    self.deletions
                },
                ..self
            },
            None => self,
        }
    }

    /// The diff of commit `commit_id` once the walk is over.
    pub open spec fn finished(self, commit_id: Seq<char>) -> CommitDiffView {
        CommitDiffView {
            commit_id,
            files: self.closed().files,
            files_changed: self.closed().files.len(),
            insertions: self.insertions,
            deletions: self.deletions,
        }
    }
}

/// A file as plain values, where there is one.
pub open spec fn optional_file(file: Option<FileDiff>) -> Option<FileDiffView> {
    match file {
        Some(f) => Some(f@),
        None => None,
    }
}

/// A hunk as plain values, where there is one.
pub open spec fn optional_hunk(hunk: Option<DiffHunk>) -> Option<DiffHunkView> {
    match hunk {
        Some(h) => Some(h@),
        None => None,
    }
}

/// Collects the diff of one commit.
pub struct CommitDiffCollector {
    files: Vec<FileDiff>,
    current_file: Option<FileDiff>,
    current_hunk: Option<DiffHunk>,
    insertions: usize,
    deletions: usize,
}

impl View for CommitDiffCollector {
    type V = CommitDiffState;

    closed spec fn view(&self) -> CommitDiffState {
        CommitDiffState {
            files: file_views(self.files@),
            current_file: optional_file(self.current_file),
            current_hunk: optional_hunk(self.current_hunk),
            insertions: self.insertions as nat,
            deletions: self.deletions as nat,
        }
    }
}

impl CommitDiffCollector {
    /// A collector that has been told nothing yet.
    pub fn new() -> (collector: CommitDiffCollector)
        ensures
            collector@ == CommitDiffState::start(),
    {
        let collector = CommitDiffCollector {
            files: Vec::new(),
            current_file: None,
            current_hunk: None,
            insertions: 0,
            deletions: 0,
        };
        assert(collector@.files =~= CommitDiffState::start().files);
        collector
    }

    /// The added lines counted so far.
    pub fn insertions(&self) -> (count: usize)
        ensures
            count == self@.insertions,
    {
        self.insertions
    }

    /// The removed lines counted so far.
    pub fn deletions(&self) -> (count: usize)
        ensures
            count == self@.deletions,
    {
        self.deletions
    }

    fn close_file(&mut self)
        ensures
            final(self)@ == old(self)@.closed(),
    {
        match self.current_file.take() {
            Some(file) => {
                let mut file = file;
                match self.current_hunk.take() {
                    Some(hunk) => {
                        push_hunk(&mut file, hunk);
                    },
                    None => {},
                }
                let ghost before = file_views(self.files@);
                self.files.push(file);
                assert(file_views(self.files@) =~= before.push(file@));
            },
            None => {},
        }
    }

    /// Takes the report of a file.
    pub fn on_file(&mut self, delta: DeltaInfo)
        ensures
            final(self)@ == old(self)@.after_file(delta@),
    {
        self.close_file();
        let status = delta_status(delta.kind);
        let path = match delta.new_path {
            Some(path) => path,
            None => match &delta.old_path {
                Some(path) => path.clone(),
                None => String::new(),
            },
        };
        let file = FileDiff {
            path,
            old_path: delta.old_path,
            status,
            hunks: Vec::new(),
            is_binary: delta.new_is_binary || delta.old_is_binary,
        };
        assert(file@.hunks =~= opened_file(delta@).hunks);
        assert(file@.path =~= opened_file(delta@).path);
        self.current_file = Some(file);
    }

    /// Takes the report of binary content.
    pub fn on_binary(&mut self)
        ensures
            final(self)@ == old(self)@.after_binary(),
    {
        match self.current_file.take() {
            Some(file) => {
                let mut file = file;
                file.is_binary = true;
                self.current_file = Some(file);
            },
            None => {},
        }
    }

    /// Takes the report of a hunk.
    pub fn on_hunk(
        &mut self,
        old_start: u32,
        old_lines: u32,
        new_start: u32,
        new_lines: u32,
        header: String,
    )
        ensures
            final(self)@ == old(self)@.after_hunk(
                opened_hunk(old_start, old_lines, new_start, new_lines, header@),
            ),
    {
        match self.current_file.take() {
            Some(file) => {
                let mut file = file;
                match self.current_hunk.take() {
                    Some(hunk) => {
                        push_hunk(&mut file, hunk);
                    },
                    None => {},
                }
                self.current_file = Some(file);
            },
            None => {},
        }
        let hunk = DiffHunk { old_start, old_lines, new_start, new_lines, header, lines: Vec::new() };
        assert(hunk@.lines =~= Seq::<DiffLineView>::empty());
        self.current_hunk = Some(hunk);
    }

    /// Takes the report of a line.
    pub fn on_line(&mut self, line: DiffLine)
        requires
            old(self)@.insertions < usize::MAX,
            old(self)@.deletions < usize::MAX,
        ensures
            final(self)@ == old(self)@.after_line(line@),
    {
        match self.current_hunk.take() {
            Some(hunk) => {
                let mut hunk = hunk;
                if line.origin == '+' {
                    self.insertions = self.insertions + 1;
                } else if line.origin == '-' {
                    self.deletions = self.deletions + 1;
                }
                push_line(&mut hunk, line);
                self.current_hunk = Some(hunk);
            },
            None => {},
        }
    }

    /// Ends the walk and hands out the diff of commit `commit_id`.
    pub fn finish(self, commit_id: &str) -> (diff: CommitDiff)
        ensures
            diff@ == self@.finished(commit_id@),
    {
        let mut collector = self;
        collector.close_file();
        let files_changed = collector.files.len();
        CommitDiff {
            commit_id: String::from_str(commit_id),
            files: collector.files,
            stats: DiffStats {
                files_changed,
                insertions: collector.insertions,
                deletions: collector.deletions,
            },
        }
    }
}

/// What a collector of one file's diff holds: the file as far as it is
/// known, and the hunk being read.
pub struct FileDiffState {
    pub file: FileDiffView,
    pub current_hunk: Option<DiffHunkView>,
}

impl FileDiffState {
    /// Nothing reported yet of the file at `path`: its status is unknown,
    /// and it has no hunks.
    pub open spec fn start(path: Seq<char>) -> FileDiffState {
        FileDiffState {
            file: FileDiffView {
                path,
                old_path: None,
                status: "unknown"@,
                hunks: Seq::empty(),
                is_binary: false,
            },
            current_hunk: None,
        }
    }

    /// A file is reported: status, old path and binary mark follow the
    /// report; path and hunks stay.
    pub open spec fn after_file(self, delta: DeltaView) -> FileDiffState {
        FileDiffState {
            file: FileDiffView {
                old_path: delta.old_path,
                status: delta.kind.name(),
                is_binary: delta.new_is_binary || delta.old_is_binary,
                ..self.file
            },
            ..self
        }
    }

    /// Binary content is reported: the file is binary.
    pub open spec fn after_binary(self) -> FileDiffState {
        FileDiffState { file: FileDiffView { is_binary: true, ..self.file }, ..self }
    }

    /// A hunk is reported: the file takes the pending hunk, and the new hunk
    /// is pending.
    pub open spec fn after_hunk(self, hunk: DiffHunkView) -> FileDiffState {
        FileDiffState {
            file: self.file.with_pending(self.current_hunk),
            current_hunk: Some(hunk),
        }
    }

    /// A line is reported: the pending hunk takes it. Where no hunk is
    /// pending, nothing changes.
    pub open spec fn after_line(self, line: DiffLineView) -> FileDiffState {
        match self.current_hunk {
            Some(hunk) => FileDiffState { current_hunk: Some(hunk.with_line(line)), ..self },
            None => self,
        }
    }

    /// The diff of the file once the walk is over.
    pub open spec fn finished(self) -> FileDiffView {
        self.file.with_pending(self.current_hunk)
    }
}

/// Collects the diff of one file.
pub struct FileDiffCollector {
    file: FileDiff,
    current_hunk: Option<DiffHunk>,
}

impl View for FileDiffCollector {
    type V = FileDiffState;

    closed spec fn view(&self) -> FileDiffState {
        FileDiffState { file: self.file@, current_hunk: optional_hunk(self.current_hunk) }
    }
}

impl FileDiffCollector {
    /// A collector for the file at `path` that has been told nothing yet.
    pub fn new(path: &str) -> (collector: FileDiffCollector)
        ensures
            collector@ == FileDiffState::start(path@),
    {
        let file = FileDiff {
            path: String::from_str(path),
            old_path: None,
            status: String::from_str("unknown"),
            hunks: Vec::new(),
            is_binary: false,
        };
        assert(file@.hunks =~= Seq::<DiffHunkView>::empty());
        FileDiffCollector { file, current_hunk: None }
    }

    /// Takes the report of a file.
    pub fn on_file(&mut self, delta: DeltaInfo)
        ensures
            final(self)@ == old(self)@.after_file(delta@),
    {
        self.file.status = delta_status(delta.kind);
        self.file.old_path = delta.old_path;
        self.file.is_binary = delta.new_is_binary || delta.old_is_binary;
    }

    /// Takes the report of binary content.
    pub fn on_binary(&mut self)
        ensures
            final(self)@ == old(self)@.after_binary(),
    {
        self.file.is_binary = true;
    }

    /// Takes the report of a hunk.
    pub fn on_hunk(
        &mut self,
        old_start: u32,
        old_lines: u32,
        new_start: u32,
        new_lines: u32,
        header: String,
    )
        ensures
            final(self)@ == old(self)@.after_hunk(
                opened_hunk(old_start, old_lines, new_start, new_lines, header@),
            ),
    {
        match self.current_hunk.take() {
            Some(hunk) => {
                push_hunk(&mut self.file, hunk);
            },
            None => {},
        }
        let hunk = DiffHunk { old_start, old_lines, new_start, new_lines, header, lines: Vec::new() };
        assert(hunk@.lines =~= Seq::<DiffLineView>::empty());
        self.current_hunk = Some(hunk);
    }

    /// Takes the report of a line.
    pub fn on_line(&mut self, line: DiffLine)
        ensures
            final(self)@ == old(self)@.after_line(line@),
    {
        match self.current_hunk.take() {
            Some(hunk) => {
                let mut hunk = hunk;
                push_line(&mut hunk, line);
                self.current_hunk = Some(hunk);
            },
            None => {},
        }
    }

    /// Ends the walk and hands out the diff of the file.
    pub fn finish(self) -> (diff: FileDiff)
        ensures
            diff@ == self@.finished(),
    {
        let mut collector = self;
        match collector.current_hunk.take() {
            Some(hunk) => {
                push_hunk(&mut collector.file, hunk);
            },
            None => {},
        }
        collector.file
    }
}

} // verus!
