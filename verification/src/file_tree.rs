//! The file tree of a commit as rows of text.
//!
//! Files are listed in display order, grouped by directory. Each directory
//! but the root gets a header row; each file row tells the status, the name
//! and how many lines were added and deleted. Colors and layout are the
//! caller's.

use crate::changes::FileChange;
use crate::changes::FileStatus;
use crate::commit::change_paths;
use crate::commit::display_order;
use crate::commit::CommitMetadata;
use crate::diff::hunk_views;
use crate::diff::line_views;
use crate::diff::DiffHunk;
use crate::diff::DiffHunkView;
use crate::diff::LineChangeType;
use crate::diff::LineChangeView;
use crate::text::chars_equal;
use crate::text::chars_slice;
use crate::text::chars_to_string;
use crate::text::decimal;
use crate::text::dir_name;
use crate::text::file_name;
use crate::text::find_file_name_start;
use crate::text::push_decimal;
use crate::text::str_chars;
use vstd::prelude::*;

verus! {

/// One file of the tree.
#[derive(Debug, Clone, PartialEq, Eq)]
pub struct FileRow {
    /// Index of the file among the changes of the commit.
    pub index: usize,
    /// Two spaces for a file in a directory, nothing for one at the root.
    pub indent: String,
    pub status: FileStatus,
    /// The mark of the status and a space.
    pub status_text: String,
    /// The file name without its directory.
    pub name: String,
    /// ` +` and the number of added lines.
    pub additions_text: String,
    /// ` -` and the number of deleted lines.
    pub deletions_text: String,
    /// Whether this is the file being shown.
    pub is_current: bool,
}

/// One row of the tree.
#[derive(Debug, Clone, PartialEq, Eq)]
pub enum TreeRow {
    /// A directory header: the directory and a `/`.
    Directory { text: String },
    File { row: FileRow },
}

/// Mathematical model of a `TreeRow`.
pub enum TreeRowView {
    Directory { text: Seq<char> },
    File {
        index: nat,
        indent: Seq<char>,
        status: FileStatus,
        status_text: Seq<char>,
        name: Seq<char>,
        additions_text: Seq<char>,
        deletions_text: Seq<char>,
        is_current: bool,
    },
}

impl View for TreeRow {
    type V = TreeRowView;

    open spec fn view(&self) -> TreeRowView {
        match *self {
            TreeRow::Directory { text } => TreeRowView::Directory { text: text@ },
            TreeRow::File { row } => TreeRowView::File {
                index: row.index as nat,
                indent: row.indent@,
                status: row.status,
                status_text: row.status_text@,
                name: row.name@,
                additions_text: row.additions_text@,
                deletions_text: row.deletions_text@,
                is_current: row.is_current,
            },
        }
    }
}

/// The models of a sequence of rows.
pub open spec fn row_views(rows: Seq<TreeRow>) -> Seq<TreeRowView> {
    Seq::new(rows.len(), |i: int| rows[i]@)
}

/// The mark shown for a status.
pub open spec fn status_mark(status: FileStatus) -> Seq<char> {
    match status {
        FileStatus::Added => "+"@,
        FileStatus::Deleted => "-"@,
        FileStatus::Modified => "~"@,
        FileStatus::Renamed => ">"@,
        FileStatus::Copied => " "@,
    }
}

/// Number of lines of the given kind.
pub open spec fn kind_count(lines: Seq<LineChangeView>, kind: LineChangeType) -> nat
    decreases lines.len(),
{
    if lines.len() == 0 {
        0
    } else {
        kind_count(lines.drop_last(), kind) + if lines.last().change_type == kind {
            1nat
        } else {
            0nat
        }
    }
}

/// Number of lines of the given kind over all hunks.
pub open spec fn total_kind_count(hunks: Seq<DiffHunkView>, kind: LineChangeType) -> nat
    decreases hunks.len(),
{
    if hunks.len() == 0 {
        0
    } else {
        total_kind_count(hunks.drop_last(), kind) + kind_count(hunks.last().lines, kind)
    }
}

/// The row of the file at `index`.
pub open spec fn file_row_of(changes: Seq<FileChange>, index: int, current: int) -> TreeRowView {
    let change = changes[index];
    TreeRowView::File {
        index: index as nat,
        indent: if dir_name(change.path@).len() == 0 {
            Seq::empty()
        } else {
            "  "@
        },
        status: change.status,
        status_text: status_mark(change.status) + " "@,
        name: file_name(change.path@),
        additions_text: " +"@ + decimal(
            total_kind_count(hunk_views(change.hunks@), LineChangeType::Addition),
        ),
        deletions_text: " -"@ + decimal(
            total_kind_count(hunk_views(change.hunks@), LineChangeType::Deletion),
        ),
        is_current: index == current,
    }
}

/// Whether the `k`-th file of `order` opens a directory: it lies in one, and
/// the file before it, if any, lies elsewhere.
pub open spec fn opens_directory(changes: Seq<FileChange>, order: Seq<usize>, k: int) -> bool {
    let dir = dir_name(changes[order[k] as int].path@);
    dir.len() > 0 && (k == 0 || dir_name(changes[order[k - 1] as int].path@) != dir)
}

/// The rows for the first `k` files of `order`.
pub open spec fn rows_of(changes: Seq<FileChange>, order: Seq<usize>, current: int, k: nat) -> Seq<
    TreeRowView,
>
    decreases k,
{
    if k == 0 {
        Seq::empty()
    } else {
        let before = rows_of(changes, order, current, (k - 1) as nat);
        let index = order[k - 1] as int;
        let with_header = if opens_directory(changes, order, k - 1) {
            before.push(
                TreeRowView::Directory { text: dir_name(changes[index].path@) + "/"@ },
            )
        } else {
            before
        };
        with_header.push(file_row_of(changes, index, current))
    }
}

/// The row of the current file among the rows for the first `k` files of
/// `order`, if it is among them.
pub open spec fn current_row_of(
    changes: Seq<FileChange>,
    order: Seq<usize>,
    current: int,
    k: nat,
) -> Option<nat>
    decreases k,
{
    if k == 0 {
        None
    } else if order[k - 1] == current {
        Some((rows_of(changes, order, current, k).len() - 1) as nat)
    } else {
        current_row_of(changes, order, current, (k - 1) as nat)
    }
}

pub open spec fn row_index_view(row: Option<usize>) -> Option<nat> {
    match row {
        Some(r) => Some(r as nat),
        None => None,
    }
}

proof fn lemma_kind_count_bound(lines: Seq<LineChangeView>, kind: LineChangeType)
    ensures
        kind_count(lines, kind) <= lines.len(),
    decreases lines.len(),
{
    if lines.len() > 0 {
        lemma_kind_count_bound(lines.drop_last(), kind);
    }
}

proof fn lemma_total_kind_bound(hunks: Seq<DiffHunk>, kind: LineChangeType, n: int)
    requires
        0 <= n <= hunks.len(),
    ensures
        total_kind_count(hunk_views(hunks).take(n), kind) <= n * usize::MAX,
    decreases n,
{
    let views = hunk_views(hunks);
    if n > 0 {
        lemma_total_kind_bound(hunks, kind, n - 1);
        assert(views.take(n).drop_last() =~= views.take(n - 1));
        assert(views.take(n).last() == views[n - 1]);
        lemma_kind_count_bound(views[n - 1].lines, kind);
        assert(views[n - 1].lines.len() == hunks[n - 1].lines.len());
        assert((n - 1) * usize::MAX + usize::MAX == n * usize::MAX) by (nonlinear_arith);
    } else {
        assert(views.take(0).len() == 0);
    }
}

fn is_kind(actual: LineChangeType, kind: LineChangeType) -> (res: bool)
    ensures
        res == (actual == kind),
{
    match (actual, kind) {
        (LineChangeType::Addition, LineChangeType::Addition) => true,
        (LineChangeType::Deletion, LineChangeType::Deletion) => true,
        (LineChangeType::Context, LineChangeType::Context) => true,
        _ => false,
    }
}

/// Counts the lines of the given kind over all hunks.
pub fn count_lines_of_kind(hunks: &Vec<DiffHunk>, kind: LineChangeType) -> (res: u128)
    ensures
        res == total_kind_count(hunk_views(hunks@), kind),
{
    let mut total: u128 = 0;
    let mut i: usize = 0;
    while i < hunks.len()
        invariant
            i <= hunks.len(),
            total == total_kind_count(hunk_views(hunks@).take(i as int), kind),
        decreases hunks.len() - i,
    {
        let hunk = &hunks[i];
        let ghost lines = line_views(hunk.lines@);
        let mut count: usize = 0;
        let mut j: usize = 0;
        while j < hunk.lines.len()
            invariant
                j <= hunk.lines.len(),
                count <= j,
                lines == line_views(hunk.lines@),
                count == kind_count(lines.take(j as int), kind),
            decreases hunk.lines.len() - j,
        {
            proof {
                assert(lines.take(j + 1).drop_last() =~= lines.take(j as int));
            }
            if is_kind(hunk.lines[j].change_type, kind) {
                count += 1;
            }
            j += 1;
        }
        proof {
            let views = hunk_views(hunks@);
            assert(lines.take(j as int) =~= lines);
            assert(views.take(i + 1).drop_last() =~= views.take(i as int));
            assert(views[i as int].lines == lines);
            lemma_total_kind_bound(hunks@, kind, i as int);
            assert(i * usize::MAX + usize::MAX <= usize::MAX * usize::MAX + usize::MAX)
                by (nonlinear_arith)
                requires
                    i <= usize::MAX,
            ;
            assert(usize::MAX * usize::MAX + usize::MAX < u128::MAX) by (nonlinear_arith)
                requires
                    usize::MAX <= 0xffff_ffff_ffff_ffff,
            ;
        }
        total = total + count as u128;
        i += 1;
    }
    assert(hunk_views(hunks@).take(i as int) =~= hunk_views(hunks@));
    total
}

/// The mark shown for a status: `+`, `-`, `~`, `>` or a space.
pub fn status_char(status: FileStatus) -> (res: &'static str)
    ensures
        res@ == status_mark(status),
{
    match status {
        FileStatus::Added => "+",
        FileStatus::Deleted => "-",
        FileStatus::Modified => "~",
        FileStatus::Renamed => ">",
        FileStatus::Copied => " ",
    }
}

fn signed_count(sign: &str, count: u128) -> (res: String)
    ensures
        res@ == sign@ + decimal(count as nat),
{
    let mut out = sign.to_owned();
    push_decimal(&mut out, count);
    out
}

/// Builds the rows of the file tree from the files in display order, and
/// tells which row holds the file at `current_file_index`.
pub fn tree_rows(changes: &Vec<FileChange>, order: &Vec<usize>, current_file_index: usize) -> (res: (
    Vec<TreeRow>,
    Option<usize>,
))
    requires
        forall|a: int| 0 <= a < order.len() ==> (#[trigger] order[a]) < changes.len(),
    ensures
        row_views(res.0@) == rows_of(changes@, order@, current_file_index as int, order.len() as nat),
        row_index_view(res.1) == current_row_of(
            changes@,
            order@,
            current_file_index as int,
            order.len() as nat,
        ),
{
    let ghost current = current_file_index as int;
    let mut rows: Vec<TreeRow> = Vec::new();
    let mut current_row: Option<usize> = None;
    let mut last_dir: Vec<char> = Vec::new();
    let mut k: usize = 0;
    proof {
        assert(row_views(rows@) =~= rows_of(changes@, order@, current, 0));
    }
    while k < order.len()
        invariant
            k <= order.len(),
            current == current_file_index as int,
            forall|a: int| 0 <= a < order.len() ==> (#[trigger] order[a]) < changes.len(),
            row_views(rows@) == rows_of(changes@, order@, current, k as nat),
            row_index_view(current_row) == current_row_of(changes@, order@, current, k as nat),
            k > 0 ==> last_dir@ == dir_name(changes[order[k - 1] as int].path@),
            rows.len() <= 2 * k,
        decreases order.len() - k,
    {
        let index = order[k];
        let change = &changes[index];
        let chars = str_chars(change.path.as_str());
        let start = find_file_name_start(&chars);
        let dir = if start == 0 {
            Vec::new()
        } else {
            chars_slice(&chars, 0, start - 1)
        };
        assert(dir@ =~= dir_name(change.path@));
        let ghost before = row_views(rows@);
        let opens = dir.len() > 0 && (k == 0 || !chars_equal(&last_dir, &dir));
        assert(opens == opens_directory(changes@, order@, k as int));
        if opens {
            let mut text = chars_to_string(&dir, 0, dir.len());
            text.append("/");
            assert(dir@.subrange(0, dir@.len() as int) =~= dir@);
            rows.push(TreeRow::Directory { text });
            assert(row_views(rows@) =~= before.push(
                TreeRowView::Directory { text: dir_name(change.path@) + "/"@ },
            ));
        }
        let ghost with_header = row_views(rows@);
        let is_current = index == current_file_index;
        if is_current {
            current_row = Some(rows.len());
        }
        let mut status_text = status_char(change.status).to_owned();
        status_text.append(" ");
        let row = FileRow {
            index,
            indent: if dir.len() == 0 {
                String::new()
            } else {
                "  ".to_owned()
            },
            status: change.status,
            status_text,
            name: chars_to_string(&chars, start, chars.len()),
            additions_text: signed_count(
                " +",
                count_lines_of_kind(&change.hunks, LineChangeType::Addition),
            ),
            deletions_text: signed_count(
                " -",
                count_lines_of_kind(&change.hunks, LineChangeType::Deletion),
            ),
            is_current,
        };
        rows.push(TreeRow::File { row });
        proof {
            assert(row_views(rows@) =~= with_header.push(
                file_row_of(changes@, index as int, current),
            ));
        }
        last_dir = dir;
        k += 1;
    }
    (rows, current_row)
}

impl CommitMetadata {
    /// The rows of the file tree of the commit, files in display order, and
    /// the row of the file at `current_file_index`.
    pub fn build_tree_lines(&self, current_file_index: usize) -> (res: (Vec<TreeRow>, Option<usize>))
        ensures
            row_views(res.0@) == rows_of(
                self.changes@,
                display_order(change_paths(self.changes@)),
                current_file_index as int,
                self.changes.len() as nat,
            ),
            row_index_view(res.1) == current_row_of(
                self.changes@,
                display_order(change_paths(self.changes@)),
                current_file_index as int,
                self.changes.len() as nat,
            ),
    {
        let order = self.sorted_file_indices();
        assert(change_paths(self.changes@).len() == self.changes.len());
        tree_rows(&self.changes, &order, current_file_index)
    }
}

/// The file tree pane: the rows of the commit it was last given, kept until
/// it is given another commit or another current file.
pub struct FileTreePane {
    cached_rows: Vec<TreeRow>,
    cached_current_line_index: Option<usize>,
    cached_metadata_id: Option<String>,
    cached_current_file_index: Option<usize>,
}

pub open spec fn id_view(id: Option<String>) -> Option<Seq<char>> {
    match id {
        Some(t) => Some(t@),
        None => None,
    }
}

impl FileTreePane {
    /// The rows that the pane holds; none while no commit is loaded.
    pub closed spec fn rows(&self) -> Seq<TreeRowView> {
        row_views(self.cached_rows@)
    }

    /// The row of the current file, if it is among the rows.
    pub closed spec fn current_row(&self) -> Option<nat> {
        row_index_view(self.cached_current_line_index)
    }

    /// The hash of the commit that the rows belong to.
    pub closed spec fn loaded_hash(&self) -> Option<Seq<char>> {
        id_view(self.cached_metadata_id)
    }

    /// The index of the current file that the rows were built for.
    pub closed spec fn loaded_file(&self) -> Option<usize> {
        self.cached_current_file_index
    }

    /// The pane holds rows for a commit with this hash and this current file.
    pub open spec fn holds(&self, hash: Seq<char>, current: usize) -> bool {
        self.loaded_hash() == Some(hash) && self.loaded_file() == Some(current)
    }

    /// The pane shows the rows of `metadata` with the file at `current` as the
    /// current one.
    pub open spec fn shows(&self, metadata: CommitMetadata, current: usize) -> bool {
        &&& self.holds(metadata.hash@, current)
        &&& self.rows() == rows_of(
            metadata.changes@,
            display_order(change_paths(metadata.changes@)),
            current as int,
            metadata.changes.len() as nat,
        )
        &&& self.current_row() == current_row_of(
            metadata.changes@,
            display_order(change_paths(metadata.changes@)),
            current as int,
            metadata.changes.len() as nat,
        )
    }

    /// A pane without commit.
    pub fn new() -> (res: FileTreePane)
        ensures
            res.loaded_hash() is None,
            res.loaded_file() is None,
            res.rows().len() == 0,
            res.current_row() is None,
    {
        FileTreePane {
            cached_rows: Vec::new(),
            cached_current_line_index: None,
            cached_metadata_id: None,
            cached_current_file_index: None,
        }
    }

    /// Whether a commit is loaded.
    pub fn is_loaded(&self) -> (res: bool)
        ensures
            res == (self.loaded_hash() is Some),
    {
        self.cached_metadata_id.is_some()
    }

    /// The rows of the pane.
    pub fn lines(&self) -> (res: &Vec<TreeRow>)
        ensures
            row_views(res@) == self.rows(),
    {
        &self.cached_rows
    }

    /// The row of the current file.
    pub fn current_line_index(&self) -> (res: Option<usize>)
        ensures
            row_index_view(res) == self.current_row(),
    {
        self.cached_current_line_index
    }

    /// Loads a commit and a current file. The rows are built anew unless the
    /// pane holds the rows for a commit with this hash and this current file
    /// already; then nothing changes.
    pub fn set_commit_metadata(&mut self, metadata: &CommitMetadata, current_file_index: usize)
        ensures
            old(self).holds(metadata.hash@, current_file_index) ==> final(self).rows() == old(
                self,
            ).rows(),
            old(self).holds(metadata.hash@, current_file_index) ==> final(self).current_row()
                == old(self).current_row(),
            old(self).holds(metadata.hash@, current_file_index) ==> final(self).holds(
                metadata.hash@,
                current_file_index,
            ),
            !old(self).holds(metadata.hash@, current_file_index) ==> final(self).shows(
                *metadata,
                current_file_index,
            ),
    {
        let same_commit = match &self.cached_metadata_id {
            Some(id) => chars_equal(&str_chars(id.as_str()), &str_chars(metadata.hash.as_str())),
            None => false,
        };
        let same_file = match self.cached_current_file_index {
            Some(index) => index == current_file_index,
            None => false,
        };
        if same_commit && same_file {
            return ;
        }
        let (rows, current_line_index) = metadata.build_tree_lines(current_file_index);
        self.cached_rows = rows;
        self.cached_current_line_index = current_line_index;
        self.cached_metadata_id = Some(metadata.hash.clone());
        self.cached_current_file_index = Some(current_file_index);
    }
}

} // verus!
