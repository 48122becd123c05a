//! Line-level diffing of two texts into hunks of added and deleted lines.
//!
//! The edit script itself comes from `gix`'s blob diff. This module splits the
//! texts into lines, hands them to the diff, and turns each changed range into
//! a `DiffHunk` whose lines carry their 1-based line numbers. Unchanged lines
//! are never materialised: a hunk holds its deletions followed by its
//! additions and no context.

use crate::text::str_chars;
use crate::text::chars_to_string;
use vstd::prelude::*;

verus! {

/// The diff primitive accepts fewer than this many lines per side.
pub const MAX_DIFF_LINES: usize = 0x7fff_ffff;

/// What a line of a hunk does to the old text.
#[derive(Debug, Clone, Copy, PartialEq, Eq, Structural)]
pub enum LineChangeType {
    Addition,
    Deletion,
    Context,
}

/// One line of a hunk.
#[derive(Debug, Clone, PartialEq, Eq)]
pub struct LineChange {
    pub change_type: LineChangeType,
    /// The line without its terminator.
    pub content: String,
    /// Line number in the old text; absent for an addition.
    pub old_line_no: Option<usize>,
    /// Line number in the new text; absent for a deletion.
    pub new_line_no: Option<usize>,
}

/// A contiguous region of change.
#[derive(Debug, Clone, PartialEq, Eq)]
pub struct DiffHunk {
    pub old_start: usize,
    pub old_lines: usize,
    pub new_start: usize,
    pub new_lines: usize,
    pub lines: Vec<LineChange>,
}

/// Strategy used to compute the edit script.
#[derive(Debug, Clone, Copy, PartialEq, Eq, Structural)]
pub enum DiffAlgorithm {
    Histogram,
    Myers,
    MyersMinimal,
}

/// One changed region as the diff reports it: the half-open range of 0-based
/// line indices removed from the old text and the range added in the new one.
#[derive(Debug, Clone, Copy, PartialEq, Eq, Structural)]
pub struct LineRange {
    pub before_start: u32,
    pub before_end: u32,
    pub after_start: u32,
    pub after_end: u32,
}

/// Mathematical model of a `LineChange`.
pub struct LineChangeView {
    pub change_type: LineChangeType,
    pub content: Seq<char>,
    pub old_line_no: Option<nat>,
    pub new_line_no: Option<nat>,
}

/// Mathematical model of a `DiffHunk`.
pub struct DiffHunkView {
    pub old_start: nat,
    pub old_lines: nat,
    pub new_start: nat,
    pub new_lines: nat,
    pub lines: Seq<LineChangeView>,
}

pub open spec fn line_number_view(n: Option<usize>) -> Option<nat> {
    match n {
        Some(v) => Some(v as nat),
        None => None,
    }
}

impl View for LineChange {
    type V = LineChangeView;

    open spec fn view(&self) -> LineChangeView {
        LineChangeView {
            change_type: self.change_type,
            content: self.content@,
            old_line_no: line_number_view(self.old_line_no),
            new_line_no: line_number_view(self.new_line_no),
        }
    }
}

/// The models of a sequence of lines.
pub open spec fn line_views(lines: Seq<LineChange>) -> Seq<LineChangeView> {
    Seq::new(lines.len(), |i: int| lines[i]@)
}

impl View for DiffHunk {
    type V = DiffHunkView;

    open spec fn view(&self) -> DiffHunkView {
        DiffHunkView {
            old_start: self.old_start as nat,
            old_lines: self.old_lines as nat,
            new_start: self.new_start as nat,
            new_lines: self.new_lines as nat,
            lines: line_views(self.lines@),
        }
    }
}

/// The models of a sequence of hunks.
pub open spec fn hunk_views(hunks: Seq<DiffHunk>) -> Seq<DiffHunkView> {
    Seq::new(hunks.len(), |i: int| hunks[i]@)
}

/// The texts of a sequence of strings.
pub open spec fn texts(lines: Seq<String>) -> Seq<Seq<char>> {
    Seq::new(lines.len(), |i: int| lines[i]@)
}

impl LineChangeView {
    /// The numbering fits the kind: an addition has only a new number, a
    /// deletion only an old one, a context line both.
    pub open spec fn well_formed(self) -> bool {
        match self.change_type {
            LineChangeType::Addition => self.old_line_no is None && self.new_line_no is Some,
            LineChangeType::Deletion => self.old_line_no is Some && self.new_line_no is None,
            LineChangeType::Context => self.old_line_no is Some && self.new_line_no is Some,
        }
    }

    /// The same line seen from the other side: an addition becomes a deletion
    /// and back, and the two line numbers trade places.
    pub open spec fn mirrored(self) -> LineChangeView {
        LineChangeView {
            change_type: match self.change_type {
                LineChangeType::Addition => LineChangeType::Deletion,
                LineChangeType::Deletion => LineChangeType::Addition,
                LineChangeType::Context => LineChangeType::Context,
            },
            content: self.content,
            old_line_no: self.new_line_no,
            new_line_no: self.old_line_no,
        }
    }
}

/// Number of lines that belong to the old text: deletions and context.
pub open spec fn old_side_count(lines: Seq<LineChangeView>) -> nat
    decreases lines.len(),
{
    if lines.len() == 0 {
        0
    } else {
        old_side_count(lines.drop_last()) + if lines.last().change_type
            != LineChangeType::Addition {
            1nat
        } else {
            0nat
        }
    }
}

/// Number of lines that belong to the new text: additions and context.
pub open spec fn new_side_count(lines: Seq<LineChangeView>) -> nat
    decreases lines.len(),
{
    if lines.len() == 0 {
        0
    } else {
        new_side_count(lines.drop_last()) + if lines.last().change_type
            != LineChangeType::Deletion {
            1nat
        } else {
            0nat
        }
    }
}

/// Number of additions and deletions.
pub open spec fn changed_count(lines: Seq<LineChangeView>) -> nat
    decreases lines.len(),
{
    if lines.len() == 0 {
        0
    } else {
        changed_count(lines.drop_last()) + if lines.last().change_type != LineChangeType::Context {
            1nat
        } else {
            0nat
        }
    }
}

impl DiffHunkView {
    /// The counts agree with the lines, and every line is numbered as its kind
    /// requires.
    pub open spec fn well_formed(self) -> bool {
        &&& self.old_lines == old_side_count(self.lines)
        &&& self.new_lines == new_side_count(self.lines)
        &&& forall|i: int| 0 <= i < self.lines.len() ==> (#[trigger] self.lines[i]).well_formed()
    }
}

/// Total number of additions and deletions over all hunks.
pub open spec fn total_changed_lines(hunks: Seq<DiffHunkView>) -> nat
    decreases hunks.len(),
{
    if hunks.len() == 0 {
        0
    } else {
        total_changed_lines(hunks.drop_last()) + changed_count(hunks.last().lines)
    }
}

/// Length of the first line of `text` without its `\n`: the index of the first
/// `\n`, or the length of `text` when it holds none.
pub open spec fn line_end(text: Seq<char>) -> nat
    decreases text.len(),
{
    if text.len() == 0 || text[0] == '\n' {
        0
    } else {
        1 + line_end(text.drop_first())
    }
}

/// A line as it is shown: `raw` holds the line up to, not including, its `\n`.
/// Where a `\n` ended the line, a `\r` just before it belongs to the
/// terminator and is dropped too.
pub open spec fn line_content(raw: Seq<char>, terminated: bool) -> Seq<char> {
    if terminated && raw.len() > 0 && raw.last() == '\r' {
        raw.drop_last()
    } else {
        raw
    }
}

/// The lines of a text. A line ends after each `\n`; what follows the last
/// `\n`, if anything, is a line too. The empty text has no lines.
pub open spec fn lines_of(text: Seq<char>) -> Seq<Seq<char>>
    decreases text.len(),
{
    if text.len() == 0 {
        Seq::empty()
    } else {
        let n = line_end(text);
        if n < text.len() {
            seq![line_content(text.subrange(0, n as int), true)] + lines_of(
                text.subrange(n as int + 1, text.len() as int),
            )
        } else {
            seq![line_content(text, false)]
        }
    }
}

/// A present text, or the empty text for an absent one.
pub open spec fn text_or_empty(text: Option<&str>) -> Seq<char> {
    match text {
        Some(t) => t@,
        None => Seq::empty(),
    }
}

/// A position with no `\n` before it that is the end of the text or holds a
/// `\n` is `line_end`.
pub proof fn lemma_line_end_unique(text: Seq<char>, n: int)
    requires
        0 <= n <= text.len(),
        n < text.len() ==> text[n] == '\n',
        forall|j: int| 0 <= j < n ==> text[j] != '\n',
    ensures
        line_end(text) == n,
    decreases text.len(),
{
    if text.len() > 0 && text[0] != '\n' {
        let rest = text.drop_first();
        assert forall|j: int| 0 <= j < n - 1 implies rest[j] != '\n' by {
            assert(rest[j] == text[j + 1]);
        }
        lemma_line_end_unique(rest, n - 1);
    }
}

/// Splits a text into its lines, without their terminators.
pub fn split_lines(text: &str) -> (res: Vec<String>)
    ensures
        texts(res@) == lines_of(text@),
{
    let chars = str_chars(text);
    let mut lines: Vec<String> = Vec::new();
    let mut pos: usize = 0;
    proof {
        assert(chars@.subrange(0, chars@.len() as int) =~= chars@);
        assert(texts(lines@) =~= Seq::<Seq<char>>::empty());
    }
    while pos < chars.len()
        invariant
            pos <= chars.len(),
            chars@ == text@,
            texts(lines@) + lines_of(chars@.subrange(pos as int, chars@.len() as int)) == lines_of(
                chars@,
            ),
        decreases chars.len() - pos,
    {
        let ghost rest = chars@.subrange(pos as int, chars@.len() as int);
        let ghost before = texts(lines@);
        let mut end: usize = pos;
        while end < chars.len() && chars[end] != '\n'
            invariant
                pos <= end <= chars.len(),
                forall|j: int| pos <= j < end ==> chars@[j] != '\n',
            decreases chars.len() - end,
        {
            end += 1;
        }
        proof {
            assert forall|j: int| 0 <= j < end - pos implies rest[j] != '\n' by {
                assert(rest[j] == chars@[pos + j]);
            }
            lemma_line_end_unique(rest, end - pos);
        }
        let terminated = end < chars.len();
        let stop = if terminated && end > pos && chars[end - 1] == '\r' {
            end - 1
        } else {
            end
        };
        let line = chars_to_string(&chars, pos, stop);
        let next = if terminated {
            end + 1
        } else {
            end
        };
        proof {
            let raw = rest.subrange(0, end - pos);
            assert(raw =~= chars@.subrange(pos as int, end as int));
            if terminated && end > pos && chars[end - 1] == '\r' {
                assert(raw.last() == '\r');
                assert(raw.drop_last() =~= chars@.subrange(pos as int, stop as int));
            }
            assert(line@ == line_content(raw, terminated));
            if terminated {
                assert(rest.subrange(end - pos + 1, rest.len() as int) =~= chars@.subrange(
                    next as int,
                    chars@.len() as int,
                ));
            } else {
                assert(raw =~= rest);
                assert(chars@.subrange(next as int, chars@.len() as int) =~= Seq::<char>::empty());
                assert(lines_of(Seq::<char>::empty()) =~= Seq::<Seq<char>>::empty());
            }
            assert(lines_of(rest) =~= seq![line@] + lines_of(
                chars@.subrange(next as int, chars@.len() as int),
            ));
        }
        lines.push(line);
        proof {
            assert(texts(lines@) =~= before + seq![line@]);
            assert(texts(lines@) + lines_of(chars@.subrange(next as int, chars@.len() as int))
                =~= before + lines_of(rest));
        }
        pos = next;
    }
    proof {
        assert(chars@.subrange(pos as int, chars@.len() as int) =~= Seq::<char>::empty());
        assert(texts(lines@) + Seq::<Seq<char>>::empty() =~= texts(lines@));
    }
    lines
}

/// The edit script that `gix`'s blob diff computes for two texts with the
/// given algorithm, one entry per changed region, in the order of the text.
pub uninterp spec fn line_diff(
    algorithm: DiffAlgorithm,
    old_text: Seq<char>,
    new_text: Seq<char>,
) -> Seq<LineRange>;

impl LineRange {
    /// Both ranges run forward and stay within texts of `old_len` and
    /// `new_len` lines.
    pub open spec fn within(self, old_len: nat, new_len: nat) -> bool {
        &&& self.before_start <= self.before_end <= old_len
        &&& self.after_start <= self.after_end <= new_len
    }

    /// The same region with the roles of the two texts exchanged.
    pub open spec fn swapped(self) -> LineRange {
        LineRange {
            before_start: self.after_start,
            before_end: self.after_end,
            after_start: self.before_start,
            after_end: self.before_end,
        }
    }
}

/// Calls `gix::diff::blob::Diff::compute` on the two texts, tokenised into
/// lines by `InternedInput::new`, and returns the ranges that `Diff::hunks`
/// yields. Trusted: the result is the crate's edit script for these inputs;
/// each range is a forward range of token indices of its side, and the tokens
/// of a text are its lines (a token ends after each `\n`). The crate refuses
/// inputs of `i32::MAX` tokens or more, which `requires` rules out.
#[verifier::external_body]
fn diff_lines(algorithm: DiffAlgorithm, old_text: &str, new_text: &str) -> (res: Vec<LineRange>)
    requires
        lines_of(old_text@).len() < MAX_DIFF_LINES,
        lines_of(new_text@).len() < MAX_DIFF_LINES,
    ensures
        res@ == line_diff(algorithm, old_text@, new_text@),
        forall|i: int|
            0 <= i < res.len() ==> (#[trigger] res[i]).within(
                lines_of(old_text@).len(),
                lines_of(new_text@).len(),
            ),
{
    let algo = match algorithm {
        DiffAlgorithm::Histogram => gix::diff::blob::Algorithm::Histogram,
        DiffAlgorithm::Myers => gix::diff::blob::Algorithm::Myers,
        DiffAlgorithm::MyersMinimal => gix::diff::blob::Algorithm::MyersMinimal,
    };
    let input = gix::diff::blob::InternedInput::new(old_text, new_text);
    gix::diff::blob::Diff::compute(algo, &input).hunks().map(|h| LineRange {
        before_start: h.before.start,
        before_end: h.before.end,
        after_start: h.after.start,
        after_end: h.after.end,
    }).collect()
}

/// The deletion of old line `index` (0-based).
pub open spec fn deletion_of(old_lines: Seq<Seq<char>>, index: int) -> LineChangeView {
    LineChangeView {
        change_type: LineChangeType::Deletion,
        content: old_lines[index],
        old_line_no: Some((index + 1) as nat),
        new_line_no: None,
    }
}

/// The addition of new line `index` (0-based).
pub open spec fn addition_of(new_lines: Seq<Seq<char>>, index: int) -> LineChangeView {
    LineChangeView {
        change_type: LineChangeType::Addition,
        content: new_lines[index],
        old_line_no: None,
        new_line_no: Some((index + 1) as nat),
    }
}

/// The deletions of old lines `from..to`, in order.
pub open spec fn deletions(old_lines: Seq<Seq<char>>, from: int, to: int) -> Seq<LineChangeView> {
    Seq::new((to - from) as nat, |k: int| deletion_of(old_lines, from + k))
}

/// The additions of new lines `from..to`, in order.
pub open spec fn additions(new_lines: Seq<Seq<char>>, from: int, to: int) -> Seq<LineChangeView> {
    Seq::new((to - from) as nat, |k: int| addition_of(new_lines, from + k))
}

/// The hunk for one changed region: it starts one past the 0-based range
/// starts, counts the lines of each range, and lists the removed old lines
/// followed by the added new lines.
pub open spec fn hunk_of(
    old_lines: Seq<Seq<char>>,
    new_lines: Seq<Seq<char>>,
    range: LineRange,
) -> DiffHunkView {
    DiffHunkView {
        old_start: (range.before_start + 1) as nat,
        old_lines: (range.before_end - range.before_start) as nat,
        new_start: (range.after_start + 1) as nat,
        new_lines: (range.after_end - range.after_start) as nat,
        lines: deletions(old_lines, range.before_start as int, range.before_end as int)
            + additions(new_lines, range.after_start as int, range.after_end as int),
    }
}

/// One hunk per changed region, in the same order.
pub open spec fn hunks_of(
    old_lines: Seq<Seq<char>>,
    new_lines: Seq<Seq<char>>,
    ranges: Seq<LineRange>,
) -> Seq<DiffHunkView> {
    Seq::new(ranges.len(), |i: int| hunk_of(old_lines, new_lines, ranges[i]))
}

/// Both texts are short enough for the diff primitive.
pub open spec fn diffable(old_text: Seq<char>, new_text: Seq<char>) -> bool {
    lines_of(old_text).len() < MAX_DIFF_LINES && lines_of(new_text).len() < MAX_DIFF_LINES
}

proof fn lemma_counts_of_deletions(old_lines: Seq<Seq<char>>, from: int, to: int)
    requires
        from <= to,
    ensures
        old_side_count(deletions(old_lines, from, to)) == to - from,
        new_side_count(deletions(old_lines, from, to)) == 0,
        changed_count(deletions(old_lines, from, to)) == to - from,
    decreases to - from,
{
    if from < to {
        lemma_counts_of_deletions(old_lines, from, to - 1);
        assert(deletions(old_lines, from, to).drop_last() =~= deletions(old_lines, from, to - 1));
    }
}

proof fn lemma_counts_of_additions(new_lines: Seq<Seq<char>>, from: int, to: int)
    requires
        from <= to,
    ensures
        old_side_count(additions(new_lines, from, to)) == 0,
        new_side_count(additions(new_lines, from, to)) == to - from,
        changed_count(additions(new_lines, from, to)) == to - from,
    decreases to - from,
{
    if from < to {
        lemma_counts_of_additions(new_lines, from, to - 1);
        assert(additions(new_lines, from, to).drop_last() =~= additions(new_lines, from, to - 1));
    }
}

proof fn lemma_counts_concat(a: Seq<LineChangeView>, b: Seq<LineChangeView>)
    ensures
        old_side_count(a + b) == old_side_count(a) + old_side_count(b),
        new_side_count(a + b) == new_side_count(a) + new_side_count(b),
        changed_count(a + b) == changed_count(a) + changed_count(b),
    decreases b.len(),
{
    if b.len() == 0 {
        assert(a + b =~= a);
    } else {
        lemma_counts_concat(a, b.drop_last());
        assert((a + b).drop_last() =~= a + b.drop_last());
    }
}

/// A hunk built from a forward range is well formed, holds no context line,
/// and has as many lines as its two counts together.
pub proof fn lemma_hunk_of_well_formed(
    old_lines: Seq<Seq<char>>,
    new_lines: Seq<Seq<char>>,
    range: LineRange,
)
    requires
        range.before_start <= range.before_end,
        range.after_start <= range.after_end,
    ensures
        hunk_of(old_lines, new_lines, range).well_formed(),
        changed_count(hunk_of(old_lines, new_lines, range).lines) == hunk_of(
            old_lines,
            new_lines,
            range,
        ).lines.len(),
        hunk_of(old_lines, new_lines, range).lines.len() == hunk_of(
            old_lines,
            new_lines,
            range,
        ).old_lines + hunk_of(old_lines, new_lines, range).new_lines,
{
    let d = deletions(old_lines, range.before_start as int, range.before_end as int);
    let a = additions(new_lines, range.after_start as int, range.after_end as int);
    lemma_counts_of_deletions(old_lines, range.before_start as int, range.before_end as int);
    lemma_counts_of_additions(new_lines, range.after_start as int, range.after_end as int);
    lemma_counts_concat(d, a);
}

/// `m` is the mirror image of `h`, both listing their deletions before their
/// additions: starts and counts trade places, and each addition of `h` is a
/// deletion of `m`, and each deletion an addition, with the same content and
/// the same line number on the other side.
pub open spec fn mirrors(h: DiffHunkView, m: DiffHunkView) -> bool {
    &&& m.old_start == h.new_start
    &&& m.old_lines == h.new_lines
    &&& m.new_start == h.old_start
    &&& m.new_lines == h.old_lines
    &&& m.lines.len() == h.lines.len()
    &&& old_side_count(m.lines) == new_side_count(h.lines)
    &&& new_side_count(m.lines) == old_side_count(h.lines)
    &&& forall|k: int|
        0 <= k < h.new_lines ==> #[trigger] m.lines[k] == h.lines[h.old_lines + k].mirrored()
    &&& forall|k: int|
        0 <= k < h.old_lines ==> m.lines[h.new_lines + k] == (#[trigger] h.lines[k]).mirrored()
}

/// An edit script with the roles of the two texts exchanged in every region.
pub open spec fn swapped_ranges(ranges: Seq<LineRange>) -> Seq<LineRange> {
    Seq::new(ranges.len(), |j: int| ranges[j].swapped())
}

/// Exchanging the two texts mirrors a hunk.
pub proof fn lemma_hunk_mirror(
    old_lines: Seq<Seq<char>>,
    new_lines: Seq<Seq<char>>,
    range: LineRange,
)
    requires
        range.before_start <= range.before_end,
        range.after_start <= range.after_end,
    ensures
        mirrors(
            hunk_of(old_lines, new_lines, range),
            hunk_of(new_lines, old_lines, range.swapped()),
        ),
{
    lemma_hunk_of_well_formed(old_lines, new_lines, range);
    lemma_hunk_of_well_formed(new_lines, old_lines, range.swapped());
}

/// Exchanging the two texts mirrors a whole edit script: where the diff of
/// the exchanged texts reports the exchanged ranges, its hunks are, one for
/// one, the mirror images of the hunks of the diff.
pub proof fn lemma_hunks_mirror(
    old_lines: Seq<Seq<char>>,
    new_lines: Seq<Seq<char>>,
    ranges: Seq<LineRange>,
)
    requires
        forall|i: int|
            0 <= i < ranges.len() ==> (#[trigger] ranges[i]).before_start <= ranges[i].before_end
                && ranges[i].after_start <= ranges[i].after_end,
    ensures
        hunks_of(new_lines, old_lines, swapped_ranges(ranges)).len() == hunks_of(
            old_lines,
            new_lines,
            ranges,
        ).len(),
        forall|i: int|
            0 <= i < ranges.len() ==> mirrors(
                #[trigger] hunks_of(old_lines, new_lines, ranges)[i],
                hunks_of(new_lines, old_lines, swapped_ranges(ranges))[i],
            ),
{
    assert forall|i: int| 0 <= i < ranges.len() implies mirrors(
        #[trigger] hunks_of(old_lines, new_lines, ranges)[i],
        hunks_of(new_lines, old_lines, swapped_ranges(ranges))[i],
    ) by {
        assert(swapped_ranges(ranges)[i] == ranges[i].swapped());
        lemma_hunk_mirror(old_lines, new_lines, ranges[i]);
    }
}

/// Builds the hunk for one changed region.
pub fn build_hunk(old_lines: &Vec<String>, new_lines: &Vec<String>, range: &LineRange) -> (res:
    DiffHunk)
    requires
        range.within(old_lines.len() as nat, new_lines.len() as nat),
        old_lines.len() < MAX_DIFF_LINES,
        new_lines.len() < MAX_DIFF_LINES,
    ensures
        res@ == hunk_of(texts(old_lines@), texts(new_lines@), *range),
        res@.well_formed(),
{
    let ghost olds = texts(old_lines@);
    let ghost news = texts(new_lines@);
    let mut lines: Vec<LineChange> = Vec::new();
    let mut i: usize = range.before_start as usize;
    while i < range.before_end as usize
        invariant
            range.before_start <= i <= range.before_end <= old_lines.len(),
            old_lines.len() < MAX_DIFF_LINES,
            olds == texts(old_lines@),
            line_views(lines@) == deletions(olds, range.before_start as int, i as int),
        decreases range.before_end - i,
    {
        let ghost prev = line_views(lines@);
        lines.push(
            LineChange {
                change_type: LineChangeType::Deletion,
                content: old_lines[i].clone(),
                old_line_no: Some(i + 1),
                new_line_no: None,
            },
        );
        proof {
            assert(line_views(lines@) =~= prev.push(deletion_of(olds, i as int)));
            assert(prev.push(deletion_of(olds, i as int)) =~= deletions(
                olds,
                range.before_start as int,
                i + 1,
            ));
        }
        i += 1;
    }
    let ghost dels = line_views(lines@);
    let mut j: usize = range.after_start as usize;
    while j < range.after_end as usize
        invariant
            range.after_start <= j <= range.after_end <= new_lines.len(),
            new_lines.len() < MAX_DIFF_LINES,
            news == texts(new_lines@),
            line_views(lines@) == dels + additions(news, range.after_start as int, j as int),
        decreases range.after_end - j,
    {
        let ghost prev = line_views(lines@);
        lines.push(
            LineChange {
                change_type: LineChangeType::Addition,
                content: new_lines[j].clone(),
                old_line_no: None,
                new_line_no: Some(j + 1),
            },
        );
        proof {
            assert(line_views(lines@) =~= prev.push(addition_of(news, j as int)));
            assert(prev.push(addition_of(news, j as int)) =~= dels + additions(
                news,
                range.after_start as int,
                j + 1,
            ));
        }
        j += 1;
    }
    proof {
        lemma_hunk_of_well_formed(olds, news, *range);
    }
    DiffHunk {
        old_start: range.before_start as usize + 1,
        old_lines: (range.before_end - range.before_start) as usize,
        new_start: range.after_start as usize + 1,
        new_lines: (range.after_end - range.after_start) as usize,
        lines,
    }
}

/// Builds one hunk per changed region of an edit script.
pub fn hunks_from_ranges(
    old_lines: &Vec<String>,
    new_lines: &Vec<String>,
    ranges: &Vec<LineRange>,
) -> (res: Vec<DiffHunk>)
    requires
        forall|i: int|
            0 <= i < ranges.len() ==> (#[trigger] ranges[i]).within(
                old_lines.len() as nat,
                new_lines.len() as nat,
            ),
        old_lines.len() < MAX_DIFF_LINES,
        new_lines.len() < MAX_DIFF_LINES,
    ensures
        hunk_views(res@) == hunks_of(texts(old_lines@), texts(new_lines@), ranges@),
        forall|i: int| 0 <= i < res.len() ==> (#[trigger] res[i])@.well_formed(),
{
    let mut hunks: Vec<DiffHunk> = Vec::new();
    let mut i: usize = 0;
    while i < ranges.len()
        invariant
            i <= ranges.len(),
            forall|k: int|
                0 <= k < ranges.len() ==> (#[trigger] ranges[k]).within(
                    old_lines.len() as nat,
                    new_lines.len() as nat,
                ),
            old_lines.len() < MAX_DIFF_LINES,
            new_lines.len() < MAX_DIFF_LINES,
            hunks.len() == i,
            forall|k: int|
                0 <= k < i ==> (#[trigger] hunks[k])@ == hunk_of(
                    texts(old_lines@),
                    texts(new_lines@),
                    ranges[k],
                ),
            forall|k: int| 0 <= k < i ==> (#[trigger] hunks[k])@.well_formed(),
        decreases ranges.len() - i,
    {
        let hunk = build_hunk(old_lines, new_lines, &ranges[i]);
        hunks.push(hunk);
        i += 1;
    }
    assert(hunk_views(hunks@) =~= hunks_of(texts(old_lines@), texts(new_lines@), ranges@));
    hunks
}

/// Diffs two texts into hunks. An absent text counts as empty. Each hunk
/// holds the lines removed from the old text followed by the lines added in
/// the new one, numbered from 1; unchanged lines are left out.
pub fn generate_hunks(old_content: Option<&str>, new_content: Option<&str>, algo: DiffAlgorithm) -> (res:
    Vec<DiffHunk>)
    requires
        diffable(text_or_empty(old_content), text_or_empty(new_content)),
    ensures
        hunk_views(res@) == hunks_of(
            lines_of(text_or_empty(old_content)),
            lines_of(text_or_empty(new_content)),
            line_diff(algo, text_or_empty(old_content), text_or_empty(new_content)),
        ),
        forall|i: int| 0 <= i < res.len() ==> (#[trigger] res[i])@.well_formed(),
{
    let old_str = match old_content {
        Some(t) => t,
        None => "",
    };
    let new_str = match new_content {
        Some(t) => t,
        None => "",
    };
    proof {
        reveal_strlit("");
        assert(old_str@ =~= text_or_empty(old_content));
        assert(new_str@ =~= text_or_empty(new_content));
    }
    let old_lines = split_lines(old_str);
    let new_lines = split_lines(new_str);
    let ranges = diff_lines(algo, old_str, new_str);
    hunks_from_ranges(&old_lines, &new_lines, &ranges)
}

/// Diffs two texts into hunks where the diff primitive can take them, and
/// returns `None` where either text has too many lines for it.
pub fn try_generate_hunks(
    old_content: Option<&str>,
    new_content: Option<&str>,
    algo: DiffAlgorithm,
) -> (res: Option<Vec<DiffHunk>>)
    ensures
        res is Some <==> diffable(text_or_empty(old_content), text_or_empty(new_content)),
        res is Some ==> hunk_views(res->Some_0@) == hunks_of(
            lines_of(text_or_empty(old_content)),
            lines_of(text_or_empty(new_content)),
            line_diff(algo, text_or_empty(old_content), text_or_empty(new_content)),
        ),
        res is Some ==> forall|i: int|
            0 <= i < res->Some_0.len() ==> (#[trigger] res->Some_0[i])@.well_formed(),
{
    let old_str = match old_content {
        Some(t) => t,
        None => "",
    };
    let new_str = match new_content {
        Some(t) => t,
        None => "",
    };
    proof {
        reveal_strlit("");
        assert(old_str@ =~= text_or_empty(old_content));
        assert(new_str@ =~= text_or_empty(new_content));
    }
    let old_lines = split_lines(old_str);
    let new_lines = split_lines(new_str);
    if old_lines.len() >= MAX_DIFF_LINES || new_lines.len() >= MAX_DIFF_LINES {
        return None;
    }
    let ranges = diff_lines(algo, old_str, new_str);
    Some(hunks_from_ranges(&old_lines, &new_lines, &ranges))
}

} // verus!
