//! From the tree-level changes of a commit to `FileChange` records.
//!
//! The caller walks the tree diff and reads the blobs; this module classifies
//! each change, decides whether its content is binary, decodes and diffs the
//! text, and applies the exclusion policy and the changed-line ceiling.

use crate::diff::hunk_views;
use crate::diff::hunks_of;
use crate::diff::line_diff;
use crate::diff::lines_of;
use crate::diff::diffable;
use crate::diff::total_changed_lines;
use crate::diff::changed_count;
use crate::diff::line_views;
use crate::diff::try_generate_hunks;
use crate::diff::DiffAlgorithm;
use crate::diff::DiffHunk;
use crate::diff::DiffHunkView;
use crate::diff::LineChangeType;
use crate::exclusion::excluded;
use crate::exclusion::ExclusionPolicy;
use crate::text::decimal;
use crate::text::push_decimal;
use crate::text::occurs_at;
use crate::text::contains;
use vstd::prelude::*;

verus! {

/// Blobs longer than this many bytes count as binary.
pub const MAX_BLOB_SIZE: usize = 512000;

/// Files with more changed lines than this are not animated.
pub const MAX_CHANGE_LINES: usize = 2000;

/// What happened to a file in a commit.
#[derive(Debug, Clone, Copy, PartialEq, Eq, Structural)]
pub enum FileStatus {
    Added,
    Deleted,
    Modified,
    Renamed,
    Copied,
}

/// The kind of a tree-level change as the tree diff reports it.
#[derive(Debug, Clone, Copy, PartialEq, Eq, Structural)]
pub enum ChangeKind {
    Addition,
    Deletion,
    Modification,
    /// An entry that moved; `copy` tells a copy from a rename.
    Rewrite { copy: bool },
}

/// One entry of a tree diff, with the bytes of the blobs it names.
#[derive(Debug, Clone, PartialEq, Eq)]
pub struct TreeChange {
    pub kind: ChangeKind,
    /// The entry is a directory, not a file.
    pub is_tree: bool,
    /// Path of the entry, relative to the repository root, `/`-separated.
    pub path: String,
    /// Where a rewritten entry came from.
    pub source_path: Option<String>,
    /// Bytes of the previous blob; `None` where it could not be read.
    pub old_data: Option<Vec<u8>>,
    /// Bytes of the current blob; `None` where it could not be read.
    pub new_data: Option<Vec<u8>>,
}

/// One changed file of a commit.
#[derive(Debug, Clone, PartialEq, Eq)]
pub struct FileChange {
    pub path: String,
    pub old_path: Option<String>,
    pub status: FileStatus,
    pub is_binary: bool,
    pub is_excluded: bool,
    pub exclusion_reason: Option<String>,
    pub old_content: Option<String>,
    pub new_content: Option<String>,
    pub hunks: Vec<DiffHunk>,
    pub diff: String,
}

/// Mathematical model of a `FileChange`.
pub struct FileChangeView {
    pub path: Seq<char>,
    pub old_path: Option<Seq<char>>,
    pub status: FileStatus,
    pub is_binary: bool,
    pub is_excluded: bool,
    pub exclusion_reason: Option<Seq<char>>,
    pub old_content: Option<Seq<char>>,
    pub new_content: Option<Seq<char>>,
    pub hunks: Seq<DiffHunkView>,
    pub diff: Seq<char>,
}

pub open spec fn text_view(text: Option<String>) -> Option<Seq<char>> {
    match text {
        Some(t) => Some(t@),
        None => None,
    }
}

pub open spec fn bytes_view(data: Option<Vec<u8>>) -> Option<Seq<u8>> {
    match data {
        Some(d) => Some(d@),
        None => None,
    }
}

impl View for FileChange {
    type V = FileChangeView;

    open spec fn view(&self) -> FileChangeView {
        FileChangeView {
            path: self.path@,
            old_path: text_view(self.old_path),
            status: self.status,
            is_binary: self.is_binary,
            is_excluded: self.is_excluded,
            exclusion_reason: text_view(self.exclusion_reason),
            old_content: text_view(self.old_content),
            new_content: text_view(self.new_content),
            hunks: hunk_views(self.hunks@),
            diff: self.diff@,
        }
    }
}

impl FileChangeView {
    /// A binary or excluded file carries no hunks, a reason is recorded
    /// exactly for an excluded file, and every hunk is well formed.
    pub open spec fn well_formed(self) -> bool {
        &&& (self.is_excluded || self.is_binary) ==> self.hunks.len() == 0
        &&& self.is_excluded <==> self.exclusion_reason is Some
        &&& forall|i: int| 0 <= i < self.hunks.len() ==> (#[trigger] self.hunks[i]).well_formed()
    }
}

/// The models of a sequence of file changes.
pub open spec fn file_change_views(changes: Seq<FileChange>) -> Seq<FileChangeView> {
    Seq::new(changes.len(), |i: int| changes[i]@)
}

impl FileStatus {
    /// The one-letter code of the status.
    pub open spec fn code(self) -> Seq<char> {
        match self {
            FileStatus::Added => "A"@,
            FileStatus::Deleted => "D"@,
            FileStatus::Modified => "M"@,
            FileStatus::Renamed => "R"@,
            FileStatus::Copied => "C"@,
        }
    }

    /// The status that a kind of tree change stands for.
    pub open spec fn of_kind(kind: ChangeKind) -> FileStatus {
        match kind {
            ChangeKind::Addition => FileStatus::Added,
            ChangeKind::Deletion => FileStatus::Deleted,
            ChangeKind::Modification => FileStatus::Modified,
            ChangeKind::Rewrite { copy } => if copy {
                FileStatus::Copied
            } else {
                FileStatus::Renamed
            },
        }
    }

    /// The one-letter code of the status: `A`, `D`, `M`, `R` or `C`.
    pub fn as_str(&self) -> (res: &'static str)
        ensures
            res@ == self.code(),
    {
        match self {
            FileStatus::Added => "A",
            FileStatus::Deleted => "D",
            FileStatus::Modified => "M",
            FileStatus::Renamed => "R",
            FileStatus::Copied => "C",
        }
    }

    /// Classifies a tree change.
    pub fn from_change(kind: ChangeKind) -> (res: FileStatus)
        ensures
            res == FileStatus::of_kind(kind),
    {
        match kind {
            ChangeKind::Addition => FileStatus::Added,
            ChangeKind::Deletion => FileStatus::Deleted,
            ChangeKind::Modification => FileStatus::Modified,
            ChangeKind::Rewrite { copy } => if copy {
                FileStatus::Copied
            } else {
                FileStatus::Renamed
            },
        }
    }
}

/// A blob is binary when it is longer than `MAX_BLOB_SIZE` or holds a NUL
/// byte.
pub open spec fn is_binary_data(data: Seq<u8>) -> bool {
    data.len() > MAX_BLOB_SIZE || data.contains(0u8)
}

/// The text that lossy UTF-8 decoding gives for `bytes`: valid sequences are
/// decoded, each invalid one becomes U+FFFD.
pub uninterp spec fn utf8_lossy(bytes: Seq<u8>) -> Seq<char>;

/// Calls `String::from_utf8_lossy`. Trusted: the text depends on the bytes
/// alone, and valid UTF-8 decodes to the characters it encodes.
#[verifier::external_body]
fn decode_lossy(data: &[u8]) -> (res: String)
    ensures
        res@ == utf8_lossy(data@),
        vstd::utf8::valid_utf8(data@) ==> res@ == vstd::utf8::decode_utf8(data@),
{
    String::from_utf8_lossy(data).into_owned()
}

/// The text of a blob: absent for a binary blob, else its lossy decoding.
pub open spec fn content_of(data: Seq<u8>) -> Option<Seq<char>> {
    if is_binary_data(data) {
        None
    } else {
        Some(utf8_lossy(data))
    }
}

/// Whether a blob is binary: longer than `MAX_BLOB_SIZE`, or holding a NUL
/// byte.
pub fn is_blob_binary(data: &Vec<u8>) -> (res: bool)
    ensures
        res == is_binary_data(data@),
{
    if data.len() > MAX_BLOB_SIZE {
        return true;
    }
    let mut i: usize = 0;
    while i < data.len()
        invariant
            i <= data.len(),
            forall|k: int| 0 <= k < i ==> data@[k] != 0u8,
        decreases data.len() - i,
    {
        if data[i] == 0 {
            return true;
        }
        i += 1;
    }
    false
}

/// The text of a blob, or `None` for a binary blob.
pub fn get_blob_content(data: &Vec<u8>) -> (res: Option<String>)
    ensures
        text_view(res) == content_of(data@),
{
    if is_blob_binary(data) {
        None
    } else {
        Some(decode_lossy(data.as_slice()))
    }
}

impl TreeChange {
    /// The bytes of the previous blob of the change. An addition has none.
    pub open spec fn old_side(self) -> Option<Seq<u8>> {
        match self.kind {
            ChangeKind::Addition => None,
            _ => bytes_view(self.old_data),
        }
    }

    /// The bytes of the current blob of the change. A deletion has none.
    pub open spec fn new_side(self) -> Option<Seq<u8>> {
        match self.kind {
            ChangeKind::Deletion => None,
            _ => bytes_view(self.new_data),
        }
    }

    /// Where the entry came from; recorded for rewrites only.
    pub open spec fn origin(self) -> Option<Seq<char>> {
        match self.kind {
            ChangeKind::Rewrite { .. } => text_view(self.source_path),
            _ => None,
        }
    }
}

pub open spec fn side_is_binary(side: Option<Seq<u8>>) -> bool {
    side is Some && is_binary_data(side->Some_0)
}

pub open spec fn side_content(side: Option<Seq<u8>>) -> Option<Seq<char>> {
    match side {
        Some(data) => content_of(data),
        None => None,
    }
}

pub open spec fn content_or_empty(content: Option<Seq<char>>) -> Seq<char> {
    match content {
        Some(t) => t,
        None => Seq::empty(),
    }
}

/// The hunks of a change before the exclusion rules apply: none for binary
/// content or for texts too long to diff, else the line diff of the decoded
/// old and new content.
pub open spec fn candidate_hunks(change: TreeChange, algo: DiffAlgorithm) -> Seq<DiffHunkView> {
    let old_text = content_or_empty(side_content(change.old_side()));
    let new_text = content_or_empty(side_content(change.new_side()));
    if side_is_binary(change.old_side()) || side_is_binary(change.new_side()) || !diffable(
        old_text,
        new_text,
    ) {
        Seq::empty()
    } else {
        hunks_of(lines_of(old_text), lines_of(new_text), line_diff(algo, old_text, new_text))
    }
}

/// The reason recorded for a file that the exclusion policy hides.
pub open spec fn policy_reason() -> Seq<char> {
    "lock/generated file"@
}

/// The reason recorded for a file with `count` changed lines, over the
/// ceiling.
pub open spec fn ceiling_reason(count: nat) -> Seq<char> {
    "too many changes ("@ + decimal(count) + " lines)"@
}

/// Why a file is excluded, if it is: the exclusion policy is asked first,
/// then the changed-line ceiling.
pub open spec fn exclusion_of(
    patterns: Option<Seq<Seq<char>>>,
    path: Seq<char>,
    changed: nat,
) -> Option<Seq<char>> {
    if excluded(patterns, path) {
        Some(policy_reason())
    } else if changed > MAX_CHANGE_LINES {
        Some(ceiling_reason(changed))
    } else {
        None
    }
}

/// The record for one changed file under a policy with the given user
/// patterns.
pub open spec fn file_change_of(
    patterns: Option<Seq<Seq<char>>>,
    change: TreeChange,
    algo: DiffAlgorithm,
) -> FileChangeView {
    let hunks = candidate_hunks(change, algo);
    let reason = exclusion_of(patterns, change.path@, total_changed_lines(hunks));
    FileChangeView {
        path: change.path@,
        old_path: change.origin(),
        status: FileStatus::of_kind(change.kind),
        is_binary: side_is_binary(change.old_side()) || side_is_binary(change.new_side()),
        is_excluded: reason is Some,
        exclusion_reason: reason,
        old_content: side_content(change.old_side()),
        new_content: side_content(change.new_side()),
        hunks: if reason is Some {
            Seq::empty()
        } else {
            hunks
        },
        diff: Seq::empty(),
    }
}

/// The records for the file entries of a tree diff, in order; directory
/// entries are skipped.
pub open spec fn file_changes_of(
    patterns: Option<Seq<Seq<char>>>,
    changes: Seq<TreeChange>,
    algo: DiffAlgorithm,
) -> Seq<FileChangeView>
    decreases changes.len(),
{
    if changes.len() == 0 {
        Seq::empty()
    } else if changes.last().is_tree {
        file_changes_of(patterns, changes.drop_last(), algo)
    } else {
        file_changes_of(patterns, changes.drop_last(), algo).push(
            file_change_of(patterns, changes.last(), algo),
        )
    }
}

/// A file with more changed lines than the ceiling, which the exclusion
/// policy does not hide by itself, is excluded, carries no hunks, and its
/// reason holds the count in decimal.
pub proof fn lemma_over_ceiling_is_excluded(
    patterns: Option<Seq<Seq<char>>>,
    change: TreeChange,
    algo: DiffAlgorithm,
)
    requires
        total_changed_lines(candidate_hunks(change, algo)) > MAX_CHANGE_LINES,
        !excluded(patterns, change.path@),
    ensures
        file_change_of(patterns, change, algo).is_excluded,
        file_change_of(patterns, change, algo).hunks.len() == 0,
        file_change_of(patterns, change, algo).exclusion_reason == Some(
            ceiling_reason(total_changed_lines(candidate_hunks(change, algo))),
        ),
        contains(
            file_change_of(patterns, change, algo).exclusion_reason->Some_0,
            decimal(total_changed_lines(candidate_hunks(change, algo))),
        ),
{
    let count = total_changed_lines(candidate_hunks(change, algo));
    let head = "too many changes ("@;
    let tail = " lines)"@;
    let reason = ceiling_reason(count);
    assert(reason.subrange(head.len() as int, head.len() as int + decimal(count).len()) =~= decimal(
        count,
    ));
    assert(occurs_at(reason, decimal(count), head.len() as int));
}

proof fn lemma_total_bound(hunks: Seq<DiffHunk>, n: int)
    requires
        0 <= n <= hunks.len(),
    ensures
        total_changed_lines(hunk_views(hunks).take(n)) <= n * usize::MAX,
    decreases n,
{
    let views = hunk_views(hunks);
    if n > 0 {
        lemma_total_bound(hunks, n - 1);
        assert(views.take(n).drop_last() =~= views.take(n - 1));
        assert(views.take(n).last() == views[n - 1]);
        lemma_changed_count_bound(views[n - 1].lines);
        assert(views[n - 1].lines.len() == hunks[n - 1].lines.len());
        assert((n - 1) * usize::MAX + usize::MAX == n * usize::MAX) by (nonlinear_arith);
    } else {
        assert(views.take(0).len() == 0);
    }
}

proof fn lemma_changed_count_bound(lines: Seq<crate::diff::LineChangeView>)
    ensures
        changed_count(lines) <= lines.len(),
    decreases lines.len(),
{
    if lines.len() > 0 {
        lemma_changed_count_bound(lines.drop_last());
    }
}

/// Counts the additions and deletions of all hunks.
pub fn count_changed_lines(hunks: &Vec<DiffHunk>) -> (res: u128)
    ensures
        res == total_changed_lines(hunk_views(hunks@)),
{
    let mut total: u128 = 0;
    let mut i: usize = 0;
    while i < hunks.len()
        invariant
            i <= hunks.len(),
            total == total_changed_lines(hunk_views(hunks@).take(i as int)),
        decreases hunks.len() - i,
    {
        let hunk = &hunks[i];
        let ghost lines = line_views(hunk.lines@);
        let mut count: usize = 0;
        let mut j: usize = 0;
        while j < hunk.lines.len()
            invariant
                j <= hunk.lines.len(),
                count <= j,
                lines == line_views(hunk.lines@),
                count == changed_count(lines.take(j as int)),
            decreases hunk.lines.len() - j,
        {
            proof {
                assert(lines.take(j + 1).drop_last() =~= lines.take(j as int));
            }
            match hunk.lines[j].change_type {
                LineChangeType::Context => {},
                _ => {
                    count += 1;
                },
            }
            j += 1;
        }
        proof {
            let views = hunk_views(hunks@);
            assert(lines.take(j as int) =~= lines);
            assert(views.take(i + 1).drop_last() =~= views.take(i as int));
            assert(views[i as int].lines == lines);
            lemma_total_bound(hunks@, i as int);
            assert(i * usize::MAX + usize::MAX <= usize::MAX * usize::MAX + usize::MAX)
                by (nonlinear_arith)
                requires
                    i <= usize::MAX,
            ;
            assert(usize::MAX * usize::MAX + usize::MAX < u128::MAX) by (nonlinear_arith)
                requires
                    usize::MAX <= 0xffff_ffff_ffff_ffff,
            ;
        }
        total = total + count as u128;
        i += 1;
    }
    assert(hunk_views(hunks@).take(i as int) =~= hunk_views(hunks@));
    total
}

/// Decides whether a file is excluded and why: the exclusion policy is asked
/// first, then the changed-line ceiling.
pub fn exclusion_reason(policy: &ExclusionPolicy, path: &str, changed: u128) -> (res: Option<String>)
    ensures
        text_view(res) == exclusion_of(policy.patterns(), path@, changed as nat),
{
    if policy.should_exclude(path) {
        Some("lock/generated file".to_owned())
    } else if changed > MAX_CHANGE_LINES as u128 {
        let mut reason = "too many changes (".to_owned();
        push_decimal(&mut reason, changed);
        reason.append(" lines)");
        Some(reason)
    } else {
        None
    }
}

fn clone_text(text: &Option<String>) -> (res: Option<String>)
    ensures
        res == *text,
{
    match text {
        Some(t) => Some(t.clone()),
        None => None,
    }
}

/// Builds the record for one changed file: classifies the change, detects
/// binary content, decodes and diffs the text, and applies the exclusion
/// policy and the changed-line ceiling. An excluded or binary file carries no
/// hunks.
pub fn extract_file_change(policy: &ExclusionPolicy, change: &TreeChange, algo: DiffAlgorithm) -> (res:
    FileChange)
    ensures
        res@ == file_change_of(policy.patterns(), *change, algo),
        res@.well_formed(),
{
    let none: Option<Vec<u8>> = None;
    let old_data = match change.kind {
        ChangeKind::Addition => &none,
        _ => &change.old_data,
    };
    let new_data = match change.kind {
        ChangeKind::Deletion => &none,
        _ => &change.new_data,
    };
    assert(bytes_view(*old_data) == change.old_side());
    assert(bytes_view(*new_data) == change.new_side());
    let old_binary = match old_data {
        Some(d) => is_blob_binary(d),
        None => false,
    };
    let new_binary = match new_data {
        Some(d) => is_blob_binary(d),
        None => false,
    };
    let is_binary = old_binary || new_binary;
    let old_content = match old_data {
        Some(d) => get_blob_content(d),
        None => None,
    };
    let new_content = match new_data {
        Some(d) => get_blob_content(d),
        None => None,
    };
    let old_text = match &old_content {
        Some(t) => Some(t.as_str()),
        None => None,
    };
    let new_text = match &new_content {
        Some(t) => Some(t.as_str()),
        None => None,
    };
    let candidates = if is_binary {
        Vec::new()
    } else {
        match try_generate_hunks(old_text, new_text, algo) {
            Some(hunks) => hunks,
            None => Vec::new(),
        }
    };
    proof {
        assert(crate::diff::text_or_empty(old_text) == content_or_empty(
            side_content(change.old_side()),
        ));
        assert(crate::diff::text_or_empty(new_text) == content_or_empty(
            side_content(change.new_side()),
        ));
        assert(hunk_views(candidates@) =~= candidate_hunks(*change, algo));
    }
    let changed = count_changed_lines(&candidates);
    let reason = exclusion_reason(policy, change.path.as_str(), changed);
    let is_excluded = reason.is_some();
    let hunks = if is_excluded {
        Vec::new()
    } else {
        candidates
    };
    let old_path = match change.kind {
        ChangeKind::Rewrite { .. } => clone_text(&change.source_path),
        _ => None,
    };
    let res = FileChange {
        path: change.path.clone(),
        old_path,
        status: FileStatus::from_change(change.kind),
        is_binary,
        is_excluded,
        exclusion_reason: reason,
        old_content,
        new_content,
        hunks,
        diff: String::new(),
    };
    proof {
        let spec = file_change_of(policy.patterns(), *change, algo);
        assert(res@.hunks =~= spec.hunks);
        assert(res@.diff =~= spec.diff);
    }
    res
}

/// Builds the records for all file entries of a tree diff, in order.
/// Directory entries are skipped.
pub fn extract_changes(policy: &ExclusionPolicy, changes: &Vec<TreeChange>, algo: DiffAlgorithm) -> (res:
    Vec<FileChange>)
    ensures
        file_change_views(res@) == file_changes_of(policy.patterns(), changes@, algo),
        forall|i: int| 0 <= i < res.len() ==> (#[trigger] res[i])@.well_formed(),
{
    let mut out: Vec<FileChange> = Vec::new();
    let mut i: usize = 0;
    proof {
        assert(changes@.take(0) =~= Seq::<TreeChange>::empty());
        assert(file_change_views(out@) =~= Seq::<FileChangeView>::empty());
    }
    while i < changes.len()
        invariant
            i <= changes.len(),
            file_change_views(out@) == file_changes_of(
                policy.patterns(),
                changes@.take(i as int),
                algo,
            ),
            forall|k: int| 0 <= k < out.len() ==> (#[trigger] out[k])@.well_formed(),
        decreases changes.len() - i,
    {
        proof {
            assert(changes@.take(i + 1).drop_last() =~= changes@.take(i as int));
            assert(changes@.take(i + 1).last() == changes@[i as int]);
        }
        if !changes[i].is_tree {
            let ghost before = file_change_views(out@);
            let record = extract_file_change(policy, &changes[i], algo);
            out.push(record);
            proof {
                assert(file_change_views(out@) =~= before.push(record@));
            }
        }
        i += 1;
    }
    proof {
        assert(changes@.take(i as int) =~= changes@);
    }
    out
}

} // verus!
