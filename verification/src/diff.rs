//! Diffs: files, hunks and lines, and the collectors that put them together
//! from the events of a walk over a diff.

use vstd::prelude::*;
use vstd::string::*;
use crate::text::text_of;

verus! {

/// The changes of one file.
#[derive(Debug, Clone, PartialEq, Eq)]
pub struct FileDiff {
    pub path: String,
    pub old_path: Option<String>,
    pub status: String,
    pub hunks: Vec<DiffHunk>,
    pub is_binary: bool,
}

/// A run of changed lines with its context.
#[derive(Debug, Clone, PartialEq, Eq)]
pub struct DiffHunk {
    pub old_start: u32,
    pub old_lines: u32,
    pub new_start: u32,
    pub new_lines: u32,
    pub header: String,
    pub lines: Vec<DiffLine>,
}

/// One line of a hunk. `origin` is `+` for an added line, `-` for a removed
/// one.
#[derive(Debug, Clone, PartialEq, Eq)]
pub struct DiffLine {
    pub origin: char,
    pub content: String,
    pub old_lineno: Option<u32>,
    pub new_lineno: Option<u32>,
}

/// The changes of one commit against its first parent.
#[derive(Debug, Clone, PartialEq, Eq)]
pub struct CommitDiff {
    pub commit_id: String,
    pub files: Vec<FileDiff>,
    pub stats: DiffStats,
}

/// How much a commit changed.
#[derive(Debug, Clone, PartialEq, Eq)]
pub struct DiffStats {
    pub files_changed: usize,
    pub insertions: usize,
    pub deletions: usize,
}

/// What happened to a file between the two sides of a diff.
#[derive(Debug, Clone, Copy, PartialEq, Eq, Structural)]
pub enum DeltaKind {
    Added,
    Deleted,
    Modified,
    Renamed,
    Copied,
    Other,
}

/// What a walk over a diff reports of one file.
#[derive(Debug, Clone, PartialEq, Eq)]
pub struct DeltaInfo {
    pub kind: DeltaKind,
    pub new_path: Option<String>,
    pub old_path: Option<String>,
    pub new_is_binary: bool,
    pub old_is_binary: bool,
}

/// A line as plain values.
pub struct DiffLineView {
    pub origin: char,
    pub content: Seq<char>,
    pub old_lineno: Option<u32>,
    pub new_lineno: Option<u32>,
}

/// A hunk as plain values.
pub struct DiffHunkView {
    pub old_start: u32,
    pub old_lines: u32,
    pub new_start: u32,
    pub new_lines: u32,
    pub header: Seq<char>,
    pub lines: Seq<DiffLineView>,
}

/// The changes of a file as plain values.
pub struct FileDiffView {
    pub path: Seq<char>,
    pub old_path: Option<Seq<char>>,
    pub status: Seq<char>,
    pub hunks: Seq<DiffHunkView>,
    pub is_binary: bool,
}

/// The changes of a commit as plain values.
pub struct CommitDiffView {
    pub commit_id: Seq<char>,
    pub files: Seq<FileDiffView>,
    pub files_changed: nat,
    pub insertions: nat,
    pub deletions: nat,
}

/// What a walk reports of a file, as plain values.
pub struct DeltaView {
    pub kind: DeltaKind,
    pub new_path: Option<Seq<char>>,
    pub old_path: Option<Seq<char>>,
    pub new_is_binary: bool,
    pub old_is_binary: bool,
}

impl View for DiffLine {
    type V = DiffLineView;

    open spec fn view(&self) -> DiffLineView {
        DiffLineView {
            origin: self.origin,
            content: self.content@,
            old_lineno: self.old_lineno,
            new_lineno: self.new_lineno,
        }
    }
}

/// The lines of a sequence, each as plain values.
pub open spec fn line_views(lines: Seq<DiffLine>) -> Seq<DiffLineView> {
    Seq::new(lines.len(), |i: int| lines[i]@)
}

impl View for DiffHunk {
    type V = DiffHunkView;

    open spec fn view(&self) -> DiffHunkView {
        DiffHunkView {
            old_start: self.old_start,
            old_lines: self.old_lines,
            new_start: self.new_start,
            new_lines: self.new_lines,
            header: self.header@,
            lines: line_views(self.lines@),
        }
    }
}

/// The hunks of a sequence, each as plain values.
pub open spec fn hunk_views(hunks: Seq<DiffHunk>) -> Seq<DiffHunkView> {
    Seq::new(hunks.len(), |i: int| hunks[i]@)
}

impl View for FileDiff {
    type V = FileDiffView;

    open spec fn view(&self) -> FileDiffView {
        FileDiffView {
            path: self.path@,
            old_path: text_of(self.old_path),
            status: self.status@,
            hunks: hunk_views(self.hunks@),
            is_binary: self.is_binary,
        }
    }
}

/// The files of a sequence, each as plain values.
pub open spec fn file_views(files: Seq<FileDiff>) -> Seq<FileDiffView> {
    Seq::new(files.len(), |i: int| files[i]@)
}

impl View for CommitDiff {
    type V = CommitDiffView;

    open spec fn view(&self) -> CommitDiffView {
        CommitDiffView {
            commit_id: self.commit_id@,
            files: file_views(self.files@),
            files_changed: self.stats.files_changed as nat,
            insertions: self.stats.insertions as nat,
            deletions: self.stats.deletions as nat,
        }
    }
}

impl View for DeltaInfo {
    type V = DeltaView;

    open spec fn view(&self) -> DeltaView {
        DeltaView {
            kind: self.kind,
            new_path: text_of(self.new_path),
            old_path: text_of(self.old_path),
            new_is_binary: self.new_is_binary,
            old_is_binary: self.old_is_binary,
        }
    }
}

impl DeltaKind {
    /// The word that names this kind of change.
    pub open spec fn name(self) -> Seq<char> {
        match self {
            DeltaKind::Added => "added"@,
            DeltaKind::Deleted => "deleted"@,
            DeltaKind::Modified => "modified"@,
            DeltaKind::Renamed => "renamed"@,
            DeltaKind::Copied => "copied"@,
            DeltaKind::Other => "unknown"@,
        }
    }
}

/// The word that names a kind of change.
pub fn delta_status(kind: DeltaKind) -> (name: String)
    ensures
        name@ == kind.name(),
{
    match kind {
        DeltaKind::Added => String::from_str("added"),
        DeltaKind::Deleted => String::from_str("deleted"),
        DeltaKind::Modified => String::from_str("modified"),
        DeltaKind::Renamed => String::from_str("renamed"),
        DeltaKind::Copied => String::from_str("copied"),
        DeltaKind::Other => String::from_str("unknown"),
    }
}

impl FileDiffView {
    /// This file with one more hunk at the end.
    pub open spec fn with_hunk(self, hunk: DiffHunkView) -> FileDiffView {
        FileDiffView { hunks: self.hunks.push(hunk), ..self }
    }

    /// This file with whatever hunk is pending added at the end.
    pub open spec fn with_pending(self, hunk: Option<DiffHunkView>) -> FileDiffView {
        match hunk {
            Some(h) => self.with_hunk(h),
            None => self,
        }
    }
}

impl DiffHunkView {
    /// This hunk with one more line at the end.
    pub open spec fn with_line(self, line: DiffLineView) -> DiffHunkView {
        DiffHunkView { lines: self.lines.push(line), ..self }
    }
}

/// The path a changed file is listed under: its new path, else its old
/// path, else the empty path.
pub open spec fn listed_path(delta: DeltaView) -> Seq<char> {
    match delta.new_path {
        Some(path) => path,
        None => match delta.old_path {
            Some(path) => path,
            None => Seq::empty(),
        },
    }
}

/// The record that a commit's diff opens for a file: no hunks yet, binary
/// where either side is.
pub open spec fn opened_file(delta: DeltaView) -> FileDiffView {
    FileDiffView {
        path: listed_path(delta),
        old_path: delta.old_path,
        status: delta.kind.name(),
        hunks: Seq::empty(),
        is_binary: delta.new_is_binary || delta.old_is_binary,
    }
}

/// A hunk that has no lines yet.
pub open spec fn opened_hunk(
    old_start: u32,
    old_lines: u32,
    new_start: u32,
    new_lines: u32,
    header: Seq<char>,
) -> DiffHunkView {
    DiffHunkView { old_start, old_lines, new_start, new_lines, header, lines: Seq::empty() }
}

/// Adds `hunk` at the end of `file`.
pub fn push_hunk(file: &mut FileDiff, hunk: DiffHunk)
    ensures
        final(file)@ == old(file)@.with_hunk(hunk@),
{
    let ghost before = hunk_views(file.hunks@);
    file.hunks.push(hunk);
    assert(hunk_views(file.hunks@) =~= before.push(hunk@));
}

/// Adds `line` at the end of `hunk`.
pub fn push_line(hunk: &mut DiffHunk, line: DiffLine)
    ensures
        final(hunk)@ == old(hunk)@.with_line(line@),
{
    let ghost before = line_views(hunk.lines@);
    hunk.lines.push(line);
    assert(line_views(hunk.lines@) =~= before.push(line@));
}

} // verus!
