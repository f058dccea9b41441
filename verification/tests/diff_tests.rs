use checkpoint_sessions::diff::{
    ChangeStats, TitorDiffResponse, LineChange, DiffHunk, FileDiff, DetailedDiff,
    DetailedDiffResponse, make_diff_options,
};

fn stats() -> ChangeStats {
    ChangeStats {
        files_added: 1,
        files_modified: 1,
        files_deleted: 1,
        bytes_added: 100,
        bytes_modified: 50,
        bytes_deleted: 25,
    }
}

fn basic() -> TitorDiffResponse {
    TitorDiffResponse {
        from_id: "from".to_string(),
        to_id: "to".to_string(),
        added_files: vec!["new.rs".to_string()],
        modified_files: vec![("lib.rs".to_string(), "lib.rs".to_string())],
        deleted_files: vec!["old.rs".to_string()],
        stats: stats(),
    }
}

fn detailed() -> DetailedDiff {
    DetailedDiff {
        basic_diff: basic(),
        file_diffs: vec![FileDiff {
            path: "lib.rs".to_string(),
            is_binary: false,
            hunks: vec![DiffHunk {
                from_line: 3,
                from_count: 2,
                to_line: 3,
                to_count: 3,
                changes: vec![
                    LineChange::Context(3, "fn main() {".to_string()),
                    LineChange::Deleted(4, "    old();".to_string()),
                    LineChange::Added(4, "    new();".to_string()),
                ],
            }],
        }],
        total_lines_added: 1,
        total_lines_deleted: 1,
    }
}

#[test]
fn detailed_diff_classifies_line_changes() {
    let r = DetailedDiffResponse::from_detailed_diff(detailed());
    assert_eq!(r.total_lines_added, 1);
    assert_eq!(r.total_lines_deleted, 1);
    assert_eq!(r.file_diffs.len(), 1);
    let f = &r.file_diffs[0];
    assert_eq!(f.path, "lib.rs");
    assert!(!f.is_binary);
    assert_eq!(f.hunks.len(), 1);
    let h = &f.hunks[0];
    assert_eq!((h.from_line, h.from_count, h.to_line, h.to_count), (3, 2, 3, 3));
    let tags: Vec<&str> = h.changes.iter().map(|c| c.change_type.as_str()).collect();
    assert_eq!(tags, vec!["context", "deleted", "added"]);
    assert_eq!(h.changes[1].line_number, 4);
    assert_eq!(h.changes[1].content, "    old();");
    assert_eq!(h.changes[2].content, "    new();");
}

#[test]
fn detailed_and_basic_diff_agree_on_file_lists() {
    let b = basic();
    let r = DetailedDiffResponse::from_detailed_diff(detailed());
    assert_eq!(r.basic_diff.added_files, b.added_files);
    assert_eq!(r.basic_diff.modified_files, b.modified_files);
    assert_eq!(r.basic_diff.deleted_files, b.deleted_files);
    assert_eq!(r.basic_diff.from_id, b.from_id);
    assert_eq!(r.basic_diff.to_id, b.to_id);
}

#[test]
fn detailed_diff_of_binary_file_keeps_empty_hunks() {
    let d = DetailedDiff {
        basic_diff: basic(),
        file_diffs: vec![FileDiff {
            path: "img.png".to_string(),
            is_binary: true,
            hunks: Vec::new(),
        }],
        total_lines_added: 0,
        total_lines_deleted: 0,
    };
    let r = DetailedDiffResponse::from_detailed_diff(d);
    assert!(r.file_diffs[0].is_binary);
    assert!(r.file_diffs[0].hunks.is_empty());
}

#[test]
fn diff_options_defaults() {
    let d = make_diff_options(None, None);
    assert_eq!(d.context_lines, 3);
    assert!(!d.ignore_whitespace);
    assert!(d.show_line_numbers);
    assert_eq!(d.max_file_size, 10 * 1024 * 1024);

    let d = make_diff_options(Some(5), Some(true));
    assert_eq!(d.context_lines, 5);
    assert!(d.ignore_whitespace);
}
