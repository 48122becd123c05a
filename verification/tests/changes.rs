use git_logue::changes::count_changed_lines;
use git_logue::changes::exclusion_reason;
use git_logue::changes::extract_changes;
use git_logue::changes::extract_file_change;
use git_logue::changes::get_blob_content;
use git_logue::changes::is_blob_binary;
use git_logue::changes::ChangeKind;
use git_logue::changes::FileChange;
use git_logue::changes::FileStatus;
use git_logue::changes::TreeChange;
use git_logue::changes::MAX_BLOB_SIZE;
use git_logue::changes::MAX_CHANGE_LINES;
use git_logue::commit::extract_metadata_with_changes;
use git_logue::commit::CommitMetadata;
use git_logue::commit::RawCommit;
use git_logue::diff::DiffAlgorithm;
use git_logue::diff::DiffHunk;
use git_logue::diff::LineChange;
use git_logue::diff::LineChangeType;
use git_logue::exclusion::init_ignore_patterns;
use git_logue::exclusion::ExclusionPolicy;
use git_logue::file_tree::count_lines_of_kind;
use git_logue::file_tree::status_char;
use git_logue::file_tree::tree_rows;
use git_logue::file_tree::FileRow;
use git_logue::file_tree::FileTreePane;
use git_logue::file_tree::TreeRow;
use git_logue::status_bar::StatusBarPane;
use git_logue::status_bar::StatusField;
use git_logue::status_bar::StatusLine;

fn change(kind: ChangeKind, path: &str, old: Option<&str>, new: Option<&str>) -> TreeChange {
    TreeChange {
        kind,
        is_tree: false,
        path: path.to_string(),
        source_path: None,
        old_data: old.map(|t| t.as_bytes().to_vec()),
        new_data: new.map(|t| t.as_bytes().to_vec()),
    }
}

fn numbered_lines(count: usize) -> String {
    (0..count).map(|n| format!("line {}\n", n)).collect()
}

fn plain_file(path: &str, status: FileStatus) -> FileChange {
    FileChange {
        path: path.to_string(),
        old_path: None,
        status,
        is_binary: false,
        is_excluded: false,
        exclusion_reason: None,
        old_content: None,
        new_content: None,
        hunks: Vec::new(),
        diff: String::new(),
    }
}

fn commit_of(paths: &[&str]) -> CommitMetadata {
    CommitMetadata {
        hash: "0123456789abcdef0123456789abcdef01234567".to_string(),
        author: "Ada".to_string(),
        timestamp: 1431648000,
        message: "subject".to_string(),
        changes: paths.iter().map(|p| plain_file(p, FileStatus::Modified)).collect(),
    }
}

#[test]
fn status_codes() {
    assert_eq!(FileStatus::Added.as_str(), "A");
    assert_eq!(FileStatus::Deleted.as_str(), "D");
    assert_eq!(FileStatus::Modified.as_str(), "M");
    assert_eq!(FileStatus::Renamed.as_str(), "R");
    assert_eq!(FileStatus::Copied.as_str(), "C");
}

#[test]
fn status_of_each_kind_of_change() {
    assert_eq!(FileStatus::from_change(ChangeKind::Addition), FileStatus::Added);
    assert_eq!(FileStatus::from_change(ChangeKind::Deletion), FileStatus::Deleted);
    assert_eq!(FileStatus::from_change(ChangeKind::Modification), FileStatus::Modified);
    assert_eq!(FileStatus::from_change(ChangeKind::Rewrite { copy: false }), FileStatus::Renamed);
    assert_eq!(FileStatus::from_change(ChangeKind::Rewrite { copy: true }), FileStatus::Copied);
}

#[test]
fn blob_with_a_nul_byte_is_binary() {
    assert!(is_blob_binary(&vec![b'a', 0, b'b']));
    assert!(!is_blob_binary(&b"plain text".to_vec()));
    assert!(!is_blob_binary(&Vec::new()));
}

#[test]
fn blob_over_the_size_ceiling_is_binary() {
    assert_eq!(MAX_BLOB_SIZE, 500 * 1024);
    assert!(!is_blob_binary(&vec![b'a'; MAX_BLOB_SIZE]));
    assert!(is_blob_binary(&vec![b'a'; MAX_BLOB_SIZE + 1]));
}

#[test]
fn blob_content_is_decoded_lossily() {
    assert_eq!(get_blob_content(&b"hello\n".to_vec()), Some("hello\n".to_string()));
    assert_eq!(get_blob_content(&"gr\u{fc}\u{df}e".as_bytes().to_vec()), Some("gr\u{fc}\u{df}e".to_string()));
    assert_eq!(get_blob_content(&vec![b'a', 0xff, b'b']), Some("a\u{fffd}b".to_string()));
    assert_eq!(get_blob_content(&vec![b'a', 0]), None);
    assert_eq!(get_blob_content(&vec![b'a'; MAX_BLOB_SIZE + 1]), None);
}

#[test]
fn added_file_is_diffed_against_nothing() {
    let policy = ExclusionPolicy::new();
    let fc = extract_file_change(
        &policy,
        &change(ChangeKind::Addition, "src/a.rs", None, Some("one\ntwo\n")),
        DiffAlgorithm::Myers,
    );
    assert_eq!(fc.path, "src/a.rs");
    assert_eq!(fc.status, FileStatus::Added);
    assert!(!fc.is_binary);
    assert!(!fc.is_excluded);
    assert_eq!(fc.exclusion_reason, None);
    assert_eq!(fc.old_content, None);
    assert_eq!(fc.new_content, Some("one\ntwo\n".to_string()));
    assert_eq!(fc.old_path, None);
    assert_eq!(fc.diff, "");
    assert_eq!(fc.hunks.len(), 1);
    assert_eq!(
        (fc.hunks[0].old_start, fc.hunks[0].old_lines, fc.hunks[0].new_start, fc.hunks[0].new_lines),
        (1, 0, 1, 2)
    );
}

#[test]
fn addition_ignores_old_bytes_and_deletion_new_bytes() {
    let policy = ExclusionPolicy::new();
    let added = extract_file_change(
        &policy,
        &change(ChangeKind::Addition, "a.txt", Some("stale\n"), Some("x\n")),
        DiffAlgorithm::Myers,
    );
    assert_eq!(added.old_content, None);
    assert_eq!(added.hunks[0].old_lines, 0);
    let deleted = extract_file_change(
        &policy,
        &change(ChangeKind::Deletion, "a.txt", Some("x\n"), Some("stale\n")),
        DiffAlgorithm::Myers,
    );
    assert_eq!(deleted.new_content, None);
    assert_eq!(deleted.status, FileStatus::Deleted);
    assert_eq!(deleted.hunks[0].new_lines, 0);
    assert_eq!(deleted.hunks[0].old_lines, 1);
}

#[test]
fn rename_records_where_the_file_came_from() {
    let policy = ExclusionPolicy::new();
    let mut moved = change(ChangeKind::Rewrite { copy: false }, "new/a.rs", Some("x\n"), Some("x\ny\n"));
    moved.source_path = Some("old/a.rs".to_string());
    let fc = extract_file_change(&policy, &moved, DiffAlgorithm::Histogram);
    assert_eq!(fc.status, FileStatus::Renamed);
    assert_eq!(fc.old_path, Some("old/a.rs".to_string()));
    let mut modified = change(ChangeKind::Modification, "a.rs", Some("x\n"), Some("y\n"));
    modified.source_path = Some("ignored".to_string());
    assert_eq!(extract_file_change(&policy, &modified, DiffAlgorithm::Histogram).old_path, None);
}

#[test]
fn binary_file_is_recorded_without_hunks() {
    let policy = ExclusionPolicy::new();
    let mut binary = change(ChangeKind::Modification, "logo.png", Some("text\n"), None);
    binary.new_data = Some(vec![0x89, b'P', 0, 1]);
    let fc = extract_file_change(&policy, &binary, DiffAlgorithm::Myers);
    assert!(fc.is_binary);
    assert!(fc.hunks.is_empty());
    assert!(!fc.is_excluded);
    assert_eq!(fc.old_content, Some("text\n".to_string()));
    assert_eq!(fc.new_content, None);
}

#[test]
fn unreadable_blob_counts_as_absent() {
    let policy = ExclusionPolicy::new();
    let fc = extract_file_change(
        &policy,
        &change(ChangeKind::Modification, "a.txt", None, Some("x\n")),
        DiffAlgorithm::Myers,
    );
    assert!(!fc.is_binary);
    assert_eq!(fc.old_content, None);
    assert_eq!(fc.hunks.len(), 1);
    assert_eq!(fc.hunks[0].new_lines, 1);
}

#[test]
fn lock_file_is_excluded_without_hunks() {
    let policy = ExclusionPolicy::new();
    let fc = extract_file_change(
        &policy,
        &change(ChangeKind::Modification, "Cargo.lock", Some("a\n"), Some("b\n")),
        DiffAlgorithm::Myers,
    );
    assert!(fc.is_excluded);
    assert_eq!(fc.exclusion_reason, Some("lock/generated file".to_string()));
    assert!(fc.hunks.is_empty());
    assert_eq!(fc.new_content, Some("b\n".to_string()));
}

#[test]
fn user_pattern_excludes_a_file() {
    let mut policy = ExclusionPolicy::new();
    init_ignore_patterns(&mut policy, &["*.svg".to_string()]).unwrap();
    let fc = extract_file_change(
        &policy,
        &change(ChangeKind::Addition, "art/logo.svg", None, Some("<svg/>\n")),
        DiffAlgorithm::Myers,
    );
    assert!(fc.is_excluded);
    assert_eq!(fc.exclusion_reason, Some("lock/generated file".to_string()));
    assert!(fc.hunks.is_empty());
}

#[test]
fn file_over_the_changed_line_ceiling_is_excluded() {
    let policy = ExclusionPolicy::new();
    let text = numbered_lines(MAX_CHANGE_LINES + 1);
    let fc = extract_file_change(
        &policy,
        &change(ChangeKind::Addition, "big.txt", None, Some(&text)),
        DiffAlgorithm::Myers,
    );
    assert!(fc.is_excluded);
    assert_eq!(fc.exclusion_reason, Some("too many changes (2001 lines)".to_string()));
    assert!(fc.hunks.is_empty());
    assert!(!fc.is_binary);
}

#[test]
fn file_at_the_changed_line_ceiling_is_kept() {
    let policy = ExclusionPolicy::new();
    let text = numbered_lines(MAX_CHANGE_LINES);
    let fc = extract_file_change(
        &policy,
        &change(ChangeKind::Addition, "big.txt", None, Some(&text)),
        DiffAlgorithm::Myers,
    );
    assert!(!fc.is_excluded);
    assert_eq!(fc.exclusion_reason, None);
    assert_eq!(fc.hunks.len(), 1);
    assert_eq!(fc.hunks[0].lines.len(), 2000);
    assert_eq!(count_changed_lines(&fc.hunks), 2000);
}

#[test]
fn policy_is_asked_before_the_ceiling() {
    let policy = ExclusionPolicy::new();
    assert_eq!(
        exclusion_reason(&policy, "yarn.lock", 5000),
        Some("lock/generated file".to_string())
    );
    assert_eq!(
        exclusion_reason(&policy, "src/a.rs", 5000),
        Some("too many changes (5000 lines)".to_string())
    );
    assert_eq!(exclusion_reason(&policy, "src/a.rs", 2001), Some("too many changes (2001 lines)".to_string()));
    assert_eq!(exclusion_reason(&policy, "src/a.rs", 2000), None);
    assert_eq!(exclusion_reason(&policy, "src/a.rs", 0), None);
    assert_eq!(
        exclusion_reason(&policy, "src/a.rs", u128::MAX),
        Some("too many changes (340282366920938463463374607431768211455 lines)".to_string())
    );
}

#[test]
fn changed_lines_leave_out_context() {
    let hunks = vec![DiffHunk {
        old_start: 1,
        old_lines: 2,
        new_start: 1,
        new_lines: 2,
        lines: vec![
            LineChange {
                change_type: LineChangeType::Context,
                content: "same".to_string(),
                old_line_no: Some(1),
                new_line_no: Some(1),
            },
            LineChange {
                change_type: LineChangeType::Deletion,
                content: "old".to_string(),
                old_line_no: Some(2),
                new_line_no: None,
            },
            LineChange {
                change_type: LineChangeType::Addition,
                content: "new".to_string(),
                old_line_no: None,
                new_line_no: Some(2),
            },
        ],
    }];
    assert_eq!(count_changed_lines(&hunks), 2);
    assert_eq!(count_lines_of_kind(&hunks, LineChangeType::Addition), 1);
    assert_eq!(count_lines_of_kind(&hunks, LineChangeType::Deletion), 1);
    assert_eq!(count_lines_of_kind(&hunks, LineChangeType::Context), 1);
    assert_eq!(count_changed_lines(&Vec::new()), 0);
}

#[test]
fn directories_are_skipped() {
    let policy = ExclusionPolicy::new();
    let mut dir = change(ChangeKind::Addition, "src", None, None);
    dir.is_tree = true;
    let changes = vec![
        dir,
        change(ChangeKind::Addition, "src/a.rs", None, Some("a\n")),
        change(ChangeKind::Deletion, "b.rs", Some("b\n"), None),
    ];
    let out = extract_changes(&policy, &changes, DiffAlgorithm::Myers);
    assert_eq!(out.len(), 2);
    assert_eq!(out[0].path, "src/a.rs");
    assert_eq!(out[1].path, "b.rs");
    assert_eq!(out[1].status, FileStatus::Deleted);
}

#[test]
fn metadata_trims_the_message() {
    let policy = ExclusionPolicy::new();
    let raw = RawCommit {
        hash: "0123456789abcdef0123456789abcdef01234567".to_string(),
        author: "Ada Lovelace".to_string(),
        timestamp: 1431648000,
        message: "\n  Fix the parser\n\nIt was off by one.\n\n".to_string(),
        changes: vec![change(ChangeKind::Modification, "src/p.rs", Some("a\n"), Some("b\n"))],
    };
    let meta = extract_metadata_with_changes(&policy, &raw, DiffAlgorithm::Myers);
    assert_eq!(meta.hash, raw.hash);
    assert_eq!(meta.author, "Ada Lovelace");
    assert_eq!(meta.timestamp, 1431648000);
    assert_eq!(meta.message, "Fix the parser\n\nIt was off by one.");
    assert_eq!(meta.changes.len(), 1);
    assert_eq!(meta.changes[0].hunks.len(), 1);
    assert_eq!(meta.message_lines(), vec!["Fix the parser".to_string(), "It was off by one.".to_string()]);
}

#[test]
fn blank_message_trims_to_nothing() {
    let policy = ExclusionPolicy::new();
    let raw = RawCommit {
        hash: "abc".to_string(),
        author: "A".to_string(),
        timestamp: 0,
        message: " \t\n\u{a0} ".to_string(),
        changes: Vec::new(),
    };
    let meta = extract_metadata_with_changes(&policy, &raw, DiffAlgorithm::Myers);
    assert_eq!(meta.message, "");
    assert_eq!(meta.message_lines(), Vec::<String>::new());
}

#[test]
fn files_are_sorted_by_directory_then_name() {
    let meta = commit_of(&["src/main.rs", "README.md", "src/git.rs", "docs/guide.md", "Cargo.toml", "src/panes/a.rs"]);
    assert_eq!(meta.sorted_file_indices(), vec![4, 1, 3, 2, 0, 5]);
    assert_eq!(commit_of(&[]).sorted_file_indices(), Vec::<usize>::new());
}

#[test]
fn sorting_compares_the_directory_as_a_whole() {
    let meta = commit_of(&["a/y", "a-b/x", "a/b/c", "a"]);
    assert_eq!(meta.sorted_file_indices(), vec![3, 0, 1, 2]);
}

#[test]
fn files_in_the_same_place_keep_their_order() {
    let meta = commit_of(&["b", "a", "b", "/a", "a"]);
    assert_eq!(meta.sorted_file_indices(), vec![1, 3, 4, 0, 2]);
}

#[test]
fn hash_is_shortened_for_display() {
    let mut meta = commit_of(&[]);
    assert_eq!(meta.hash_display(), "0123456");
    assert!(!meta.is_working_tree());
    meta.hash = "abc".to_string();
    assert_eq!(meta.hash_display(), "abc");
    meta.hash = "working-tree".to_string();
    assert!(meta.is_working_tree());
    assert_eq!(meta.hash_display(), "working");
}

#[test]
fn status_marks() {
    assert_eq!(status_char(FileStatus::Added), "+");
    assert_eq!(status_char(FileStatus::Deleted), "-");
    assert_eq!(status_char(FileStatus::Modified), "~");
    assert_eq!(status_char(FileStatus::Renamed), ">");
    assert_eq!(status_char(FileStatus::Copied), " ");
}

#[test]
fn tree_rows_group_files_under_directory_headers() {
    let policy = ExclusionPolicy::new();
    let raw = RawCommit {
        hash: "abc".to_string(),
        author: "A".to_string(),
        timestamp: 0,
        message: "m".to_string(),
        changes: vec![
            change(ChangeKind::Modification, "src/main.rs", Some("a\nb\n"), Some("a\nc\nd\n")),
            change(ChangeKind::Addition, "README.md", None, Some("hello\n")),
            change(ChangeKind::Deletion, "src/git.rs", Some("x\ny\n"), None),
        ],
    };
    let meta = extract_metadata_with_changes(&policy, &raw, DiffAlgorithm::Myers);
    let (rows, current) = meta.build_tree_lines(0);
    let file = |index: usize, indent: &str, status: FileStatus, mark: &str, name: &str, add: &str, del: &str, is_current: bool| TreeRow::File {
        row: FileRow {
            index,
            indent: indent.to_string(),
            status,
            status_text: mark.to_string(),
            name: name.to_string(),
            additions_text: add.to_string(),
            deletions_text: del.to_string(),
            is_current,
        },
    };
    assert_eq!(
        rows,
        vec![
            file(1, "", FileStatus::Added, "+ ", "README.md", " +1", " -0", false),
            TreeRow::Directory { text: "src/".to_string() },
            file(2, "  ", FileStatus::Deleted, "- ", "git.rs", " +0", " -2", false),
            file(0, "  ", FileStatus::Modified, "~ ", "main.rs", " +2", " -1", true),
        ]
    );
    assert_eq!(current, Some(3));
    assert_eq!(meta.build_tree_lines(1).1, Some(0));
    assert_eq!(meta.build_tree_lines(7).1, None);
}

#[test]
fn tree_rows_follow_the_given_order() {
    let meta = commit_of(&["b/x", "a/y", "b/z"]);
    let (rows, current) = tree_rows(&meta.changes, &vec![0, 1, 2], 2);
    let texts: Vec<String> = rows
        .iter()
        .map(|r| match r {
            TreeRow::Directory { text } => text.clone(),
            TreeRow::File { row } => row.name.clone(),
        })
        .collect();
    assert_eq!(texts, vec!["b/", "x", "a/", "y", "b/", "z"]);
    assert_eq!(current, Some(5));
    assert_eq!(tree_rows(&meta.changes, &Vec::new(), 0), (Vec::new(), None));
}

#[test]
fn status_bar_without_commit() {
    assert_eq!(
        StatusBarPane.status_lines(None, ""),
        vec![StatusLine { field: StatusField::NoCommit, label: "".to_string(), text: "No commit loaded".to_string() }]
    );
}

#[test]
fn status_bar_of_a_commit() {
    let mut meta = commit_of(&[]);
    meta.message = "Subject\n\n  \nBody line\n".to_string();
    let line = |field: StatusField, label: &str, text: &str| StatusLine { field, label: label.to_string(), text: text.to_string() };
    assert_eq!(
        StatusBarPane.status_lines(Some(&meta), "2015-05-15 00:00:00"),
        vec![
            line(StatusField::Hash, "hash: ", "0123456"),
            line(StatusField::Author, "author: ", "Ada"),
            line(StatusField::Date, "date: ", "2015-05-15 00:00:00"),
            line(StatusField::Message, "", "Subject"),
            line(StatusField::Message, "", "Body line"),
        ]
    );
}

#[test]
fn status_bar_of_the_working_tree_has_no_date() {
    let mut meta = commit_of(&[]);
    meta.hash = "working-tree".to_string();
    let lines = StatusBarPane.status_lines(Some(&meta), "2015-05-15 00:00:00");
    assert_eq!(lines.len(), 3);
    assert_eq!(lines[0].text, "working");
    assert_eq!(lines[1].field, StatusField::Author);
    assert_eq!(lines[2].field, StatusField::Message);
}

#[test]
fn pane_keeps_its_rows_until_the_commit_or_the_file_changes() {
    let mut pane = FileTreePane::new();
    assert!(!pane.is_loaded());
    assert!(pane.lines().is_empty());
    assert_eq!(pane.current_line_index(), None);

    let first = commit_of(&["src/a.rs", "b.rs"]);
    pane.set_commit_metadata(&first, 0);
    assert!(pane.is_loaded());
    assert_eq!(pane.lines().len(), 3);
    assert_eq!(pane.current_line_index(), Some(2));
    assert_eq!((pane.lines().clone(), pane.current_line_index()), first.build_tree_lines(0));

    let mut same_hash = commit_of(&["only.rs"]);
    same_hash.hash = first.hash.clone();
    pane.set_commit_metadata(&same_hash, 0);
    assert_eq!(pane.lines().len(), 3);

    pane.set_commit_metadata(&same_hash, 1);
    assert_eq!(pane.lines().len(), 1);
    assert_eq!(pane.current_line_index(), None);

    let mut other = commit_of(&["x/y.rs"]);
    other.hash = "ffff".to_string();
    pane.set_commit_metadata(&other, 0);
    assert_eq!(pane.lines().len(), 2);
    assert_eq!(pane.current_line_index(), Some(1));
}
