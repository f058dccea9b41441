//! Diff normalization for transport.
//!
//! The store reports a basic diff (which files were added, modified and
//! deleted, with aggregate statistics) and a detailed diff (the basic diff
//! plus per-file hunks of line-level changes).  These functions flatten the
//! detailed form into a transport-stable shape, classifying each line
//! change by its tag; the lemma at the end states that the detailed
//! response keeps exactly the basic diff it was derived from, so the two
//! diff operations agree on the file lists.

use vstd::prelude::*;

verus! {

/// Aggregate change statistics of a basic diff.
#[derive(Debug, PartialEq)]
pub struct ChangeStats {
    /// Number of files added.
    pub files_added: usize,
    /// Number of files modified.
    pub files_modified: usize,
    /// Number of files deleted.
    pub files_deleted: usize,
    /// Total size of added files in bytes.
    pub bytes_added: u64,
    /// Total size of modified files in bytes, at their new size.
    pub bytes_modified: u64,
    /// Total size of deleted files in bytes.
    pub bytes_deleted: u64,
}

/// A basic diff between two checkpoints, normalized to file paths.
#[derive(Debug, PartialEq)]
pub struct TitorDiffResponse {
    /// Source checkpoint id.
    pub from_id: String,
    /// Target checkpoint id.
    pub to_id: String,
    /// Paths of files added in the target.
    pub added_files: Vec<String>,
    /// Paths of files modified between the checkpoints, old and new.
    pub modified_files: Vec<(String, String)>,
    /// Paths of files deleted in the target.
    pub deleted_files: Vec<String>,
    /// Aggregate change statistics.
    pub stats: ChangeStats,
}

/// One line-level change inside a hunk, as the store reports it.
#[derive(Debug, PartialEq)]
pub enum LineChange {
    /// Line added in the new version: line number there, and content.
    Added(usize, String),
    /// Line deleted from the old version: line number there, and content.
    Deleted(usize, String),
    /// Line present in both versions: line number in the old one, content.
    Context(usize, String),
}

/// A contiguous run of line changes, as the store reports it.
#[derive(Debug, PartialEq)]
pub struct DiffHunk {
    /// Starting line in the source file.
    pub from_line: usize,
    /// Number of source-file lines in the hunk.
    pub from_count: usize,
    /// Starting line in the target file.
    pub to_line: usize,
    /// Number of target-file lines in the hunk.
    pub to_count: usize,
    /// The line changes of the hunk.
    pub changes: Vec<LineChange>,
}

/// Line-level changes of one file, as the store reports them.
#[derive(Debug, PartialEq)]
pub struct FileDiff {
    /// Path of the file.
    pub path: String,
    /// Whether the file is binary, with no line diff available.
    pub is_binary: bool,
    /// The hunks of changes.
    pub hunks: Vec<DiffHunk>,
}

/// A detailed diff between two checkpoints, as the store reports it.
#[derive(Debug, PartialEq)]
pub struct DetailedDiff {
    /// The basic diff the detailed one extends.
    pub basic_diff: TitorDiffResponse,
    /// Line-level diffs of the modified files.
    pub file_diffs: Vec<FileDiff>,
    /// Lines added across all files.
    pub total_lines_added: usize,
    /// Lines deleted across all files.
    pub total_lines_deleted: usize,
}

/// One line change, classified by a tag for transport.
#[derive(Debug, PartialEq)]
pub struct LineChangeResponse {
    /// `added`, `deleted` or `context`.
    pub change_type: String,
    /// Line number the change applies to.
    pub line_number: usize,
    /// Content of the line.
    pub content: String,
}

/// One hunk of classified line changes.
#[derive(Debug, PartialEq)]
pub struct HunkResponse {
    /// Starting line in the source file.
    pub from_line: usize,
    /// Number of source-file lines in the hunk.
    pub from_count: usize,
    /// Starting line in the target file.
    pub to_line: usize,
    /// Number of target-file lines in the hunk.
    pub to_count: usize,
    /// The classified line changes.
    pub changes: Vec<LineChangeResponse>,
}

/// Line-level changes of one file, classified for transport.
#[derive(Debug, PartialEq)]
pub struct FileDiffResponse {
    /// Path of the file.
    pub path: String,
    /// Whether the file is binary.
    pub is_binary: bool,
    /// The hunks of classified changes.
    pub hunks: Vec<HunkResponse>,
}

/// A detailed diff flattened for transport.
#[derive(Debug, PartialEq)]
pub struct DetailedDiffResponse {
    /// The basic diff, unchanged.
    pub basic_diff: TitorDiffResponse,
    /// The per-file diffs with classified line changes.
    pub file_diffs: Vec<FileDiffResponse>,
    /// Lines added across all files.
    pub total_lines_added: usize,
    /// Lines deleted across all files.
    pub total_lines_deleted: usize,
}

/// Options handed to the store for a detailed diff.
#[derive(Debug, PartialEq)]
pub struct DiffOptions {
    /// Context lines shown around changes.
    pub context_lines: usize,
    /// Whether whitespace-only changes are ignored.
    pub ignore_whitespace: bool,
    /// Whether line numbers are produced.
    pub show_line_numbers: bool,
    /// Largest file size, in bytes, for which line diffs are computed.
    pub max_file_size: u64,
}

/// `r` classifies the line change `c`: the tag names the variant, line
/// number and content are kept.
pub open spec fn spec_change_response(c: LineChange, r: LineChangeResponse) -> bool {
    match c {
        LineChange::Added(n, s) => r.change_type@ == "added"@ && r.line_number == n && r.content@
            == s@,
        LineChange::Deleted(n, s) => r.change_type@ == "deleted"@ && r.line_number == n
            && r.content@ == s@,
        LineChange::Context(n, s) => r.change_type@ == "context"@ && r.line_number == n
            && r.content@ == s@,
    }
}

/// `r` is the hunk `h` with every line change classified.
pub open spec fn spec_hunk_response(h: DiffHunk, r: HunkResponse) -> bool {
    &&& r.from_line == h.from_line
    &&& r.from_count == h.from_count
    &&& r.to_line == h.to_line
    &&& r.to_count == h.to_count
    &&& r.changes@.len() == h.changes@.len()
    &&& forall|k: int|
        0 <= k < h.changes@.len() ==> spec_change_response(
            #[trigger] h.changes@[k],
            r.changes@[k],
        )
}

/// `r` is the file diff `f` with every hunk classified.
pub open spec fn spec_file_response(f: FileDiff, r: FileDiffResponse) -> bool {
    &&& r.path@ == f.path@
    &&& r.is_binary == f.is_binary
    &&& r.hunks@.len() == f.hunks@.len()
    &&& forall|k: int|
        0 <= k < f.hunks@.len() ==> spec_hunk_response(#[trigger] f.hunks@[k], r.hunks@[k])
}

/// `r` is the detailed diff `d` flattened: the basic diff and the totals
/// unchanged, every file diff classified.
pub open spec fn spec_detailed_response(d: DetailedDiff, r: DetailedDiffResponse) -> bool {
    &&& r.basic_diff == d.basic_diff
    &&& r.total_lines_added == d.total_lines_added
    &&& r.total_lines_deleted == d.total_lines_deleted
    &&& r.file_diffs@.len() == d.file_diffs@.len()
    &&& forall|k: int|
        0 <= k < d.file_diffs@.len() ==> spec_file_response(
            #[trigger] d.file_diffs@[k],
            r.file_diffs@[k],
        )
}

impl Clone for LineChange {
    /// A clone carries exactly the same change.
    fn clone(&self) -> (res: Self)
        ensures
            res == *self,
    {
        match self {
            LineChange::Added(n, s) => LineChange::Added(*n, s.clone()),
            LineChange::Deleted(n, s) => LineChange::Deleted(*n, s.clone()),
            LineChange::Context(n, s) => LineChange::Context(*n, s.clone()),
        }
    }
}

/// Classify one line change by its tag.
fn change_response(c: LineChange) -> (r: LineChangeResponse)
    ensures
        spec_change_response(c, r),
{
    match c {
        LineChange::Added(n, s) => LineChangeResponse {
            change_type: String::from_str("added"),
            line_number: n,
            content: s,
        },
        LineChange::Deleted(n, s) => LineChangeResponse {
            change_type: String::from_str("deleted"),
            line_number: n,
            content: s,
        },
        LineChange::Context(n, s) => LineChangeResponse {
            change_type: String::from_str("context"),
            line_number: n,
            content: s,
        },
    }
}

/// Classify every line change of one hunk.
fn hunk_response(h: &DiffHunk) -> (r: HunkResponse)
    ensures
        spec_hunk_response(*h, r),
{
    let mut changes: Vec<LineChangeResponse> = Vec::new();
    let mut k: usize = 0;
    while k < h.changes.len()
        invariant
            k <= h.changes@.len(),
            changes@.len() == k,
            forall|j: int|
                0 <= j < k ==> spec_change_response(
                    #[trigger] h.changes@[j],
                    changes@[j],
                ),
        decreases h.changes@.len() - k,
    {
        changes.push(change_response(h.changes[k].clone()));
        k = k + 1;
    }
    HunkResponse {
        from_line: h.from_line,
        from_count: h.from_count,
        to_line: h.to_line,
        to_count: h.to_count,
        changes,
    }
}

/// Classify every hunk of one file diff.
fn file_diff_response(f: &FileDiff) -> (r: FileDiffResponse)
    ensures
        spec_file_response(*f, r),
{
    let mut hunks: Vec<HunkResponse> = Vec::new();
    let mut k: usize = 0;
    while k < f.hunks.len()
        invariant
            k <= f.hunks@.len(),
            hunks@.len() == k,
            forall|j: int| 0 <= j < k ==> spec_hunk_response(#[trigger] f.hunks@[j], hunks@[j]),
        decreases f.hunks@.len() - k,
    {
        hunks.push(hunk_response(&f.hunks[k]));
        k = k + 1;
    }
    FileDiffResponse { path: f.path.clone(), is_binary: f.is_binary, hunks }
}

impl DetailedDiffResponse {
    /// Flatten a detailed diff for transport: keep the basic diff and the
    /// totals, classify every line change of every file by its tag.
    pub fn from_detailed_diff(diff: DetailedDiff) -> (r: Self)
        ensures
            spec_detailed_response(diff, r),
    {
        let mut file_diffs: Vec<FileDiffResponse> = Vec::new();
        let mut k: usize = 0;
        while k < diff.file_diffs.len()
            invariant
                k <= diff.file_diffs@.len(),
                file_diffs@.len() == k,
                forall|j: int|
                    0 <= j < k ==> spec_file_response(
                        #[trigger] diff.file_diffs@[j],
                        file_diffs@[j],
                    ),
        decreases diff.file_diffs@.len() - k,
        {
            file_diffs.push(file_diff_response(&diff.file_diffs[k]));
            k = k + 1;
        }
        DetailedDiffResponse {
            basic_diff: diff.basic_diff,
            file_diffs,
            total_lines_added: diff.total_lines_added,
            total_lines_deleted: diff.total_lines_deleted,
        }
    }
}

/// Detailed-diff options with the defaults filled in: three context lines,
/// whitespace-sensitive, line numbers shown, ten-mebibyte file cap.
pub fn make_diff_options(context_lines: Option<usize>, ignore_whitespace: Option<bool>) -> (r:
    DiffOptions)
    ensures
        r.context_lines == (match context_lines {
            Some(c) => c,
            None => 3usize,
        }),
        r.ignore_whitespace == (match ignore_whitespace {
            Some(w) => w,
            None => false,
        }),
        r.show_line_numbers == true,
        r.max_file_size == 10485760,
{
    DiffOptions {
        context_lines: match context_lines {
            Some(c) => c,
            None => 3,
        },
        ignore_whitespace: match ignore_whitespace {
            Some(w) => w,
            None => false,
        },
        show_line_numbers: true,
        max_file_size: 10 * 1024 * 1024,
    }
}

/// Diff agreement: a detailed diff response carries exactly the basic diff
/// it was derived from, so the basic and the detailed operation agree on
/// which files were added, modified and deleted.
pub proof fn lemma_diff_agreement(d: DetailedDiff, r: DetailedDiffResponse)
    requires
        spec_detailed_response(d, r),
    ensures
        r.basic_diff.added_files == d.basic_diff.added_files,
        r.basic_diff.modified_files == d.basic_diff.modified_files,
        r.basic_diff.deleted_files == d.basic_diff.deleted_files,
{
}

} // verus!
