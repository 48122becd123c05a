//! A commit as it is shown: who wrote it, when, what it says, what it changed.

use crate::changes::extract_changes;
use crate::changes::file_change_views;
use crate::changes::file_changes_of;
use crate::changes::FileChange;
use crate::changes::TreeChange;
use crate::diff::lines_of;
use crate::diff::split_lines;
use crate::diff::texts;
use crate::diff::DiffAlgorithm;
use crate::exclusion::ExclusionPolicy;
use crate::text::chars_equal;
use crate::text::chars_less;
use crate::text::chars_slice;
use crate::text::chars_to_string;
use crate::text::count_leading_space;
use crate::text::dir_name;
use crate::text::file_name;
use crate::text::find_file_name_start;
use crate::text::is_blank;
use crate::text::lemma_lex_transitive;
use crate::text::lemma_lex_trichotomy;
use crate::text::lex_less;
use crate::text::str_chars;
use crate::text::trim;
use crate::text::trimmed;
use vstd::prelude::*;

verus! {

/// A commit as the caller read it from the repository.
#[derive(Debug, Clone, PartialEq, Eq)]
pub struct RawCommit {
    /// Hex object id.
    pub hash: String,
    /// Display name of the author.
    pub author: String,
    /// Seconds since the Unix epoch, UTC.
    pub timestamp: i64,
    /// The message as stored.
    pub message: String,
    /// The tree diff against the first parent, or against the empty tree for
    /// a root commit.
    pub changes: Vec<TreeChange>,
}

/// A commit with its file changes.
#[derive(Debug, Clone, PartialEq, Eq)]
pub struct CommitMetadata {
    /// Hex object id.
    pub hash: String,
    /// Display name of the author.
    pub author: String,
    /// Seconds since the Unix epoch, UTC.
    pub timestamp: i64,
    /// The message without leading and trailing whitespace.
    pub message: String,
    pub changes: Vec<FileChange>,
}

/// The paths of a sequence of file changes.
pub open spec fn change_paths(changes: Seq<FileChange>) -> Seq<Seq<char>> {
    Seq::new(changes.len(), |i: int| changes[i].path@)
}

/// `p` is shown strictly before `q` by its place alone: its directory comes
/// first, or the directories are the same and its file name comes first.
pub open spec fn path_before(p: Seq<char>, q: Seq<char>) -> bool {
    lex_less(dir_name(p), dir_name(q)) || (dir_name(p) == dir_name(q) && lex_less(
        file_name(p),
        file_name(q),
    ))
}

/// `p` and `q` have the same directory and file name.
pub open spec fn same_place(p: Seq<char>, q: Seq<char>) -> bool {
    dir_name(p) == dir_name(q) && file_name(p) == file_name(q)
}

/// The file at index `i` is shown before the one at index `j`: by its place,
/// or, where the places are the same, by its index.
pub open spec fn shown_before(paths: Seq<Seq<char>>, i: int, j: int) -> bool {
    path_before(paths[i], paths[j]) || (same_place(paths[i], paths[j]) && i < j)
}

/// `order` lists every index of `paths` once, each shown before all that
/// follow it.
pub open spec fn is_display_order(paths: Seq<Seq<char>>, order: Seq<usize>) -> bool {
    &&& order.len() == paths.len()
    &&& forall|a: int| 0 <= a < order.len() ==> (#[trigger] order[a]) < paths.len()
    &&& forall|a: int, b: int|
        0 <= a < b < order.len() ==> shown_before(paths, order[a] as int, order[b] as int)
    &&& forall|k: usize| k < paths.len() ==> order.contains(k)
}

/// The display order of `paths`: the one order that lists every index once,
/// each shown before all that follow it.
pub open spec fn display_order(paths: Seq<Seq<char>>) -> Seq<usize> {
    choose|order: Seq<usize>| is_display_order(paths, order)
}

/// The text shown for a hash: `working` for the working tree, else the first
/// seven characters.
pub open spec fn hash_display_of(hash: Seq<char>) -> Seq<char> {
    if hash == "working-tree"@ {
        "working"@
    } else if hash.len() <= 7 {
        hash
    } else {
        hash.take(7)
    }
}

/// The lines of a message that hold more than whitespace.
pub open spec fn message_lines_of(message: Seq<char>) -> Seq<Seq<char>> {
    lines_of(message).filter(|line: Seq<char>| !is_blank(line))
}

proof fn lemma_path_order(p: Seq<char>, q: Seq<char>)
    ensures
        path_before(p, q) || path_before(q, p) || same_place(p, q),
        !(path_before(p, q) && path_before(q, p)),
        !(path_before(p, q) && same_place(p, q)),
{
    lemma_lex_trichotomy(dir_name(p), dir_name(q));
    lemma_lex_trichotomy(file_name(p), file_name(q));
}

proof fn lemma_path_before_transitive(p: Seq<char>, q: Seq<char>, r: Seq<char>)
    requires
        path_before(p, q),
        path_before(q, r) || same_place(q, r),
    ensures
        path_before(p, r),
{
    if path_before(q, r) {
        if lex_less(dir_name(p), dir_name(q)) && lex_less(dir_name(q), dir_name(r)) {
            lemma_lex_transitive(dir_name(p), dir_name(q), dir_name(r));
        } else if dir_name(p) == dir_name(q) && dir_name(q) == dir_name(r) {
            lemma_lex_transitive(file_name(p), file_name(q), file_name(r));
        }
    }
}

proof fn lemma_same_prefix(paths: Seq<Seq<char>>, first: Seq<usize>, second: Seq<usize>, n: int)
    requires
        is_display_order(paths, first),
        is_display_order(paths, second),
        0 <= n <= paths.len(),
    ensures
        forall|j: int| 0 <= j < n ==> first[j] == second[j],
    decreases n,
{
    if n > 0 {
        lemma_same_prefix(paths, first, second, n - 1);
        let a = n - 1;
        let x = first[a];
        let y = second[a];
        if x != y {
            assert(x < paths.len());
            assert(y < paths.len());
            assert(second.contains(x));
            let b = choose|b: int| 0 <= b < second.len() && second[b] == x;
            assert(first.contains(y));
            let c = choose|c: int| 0 <= c < first.len() && first[c] == y;
            lemma_path_order(paths[x as int], paths[y as int]);
            lemma_path_order(paths[y as int], paths[x as int]);
            lemma_path_order(paths[x as int], paths[x as int]);
            lemma_path_order(paths[y as int], paths[y as int]);
            if b < a {
                assert(first[b] == second[b]);
                assert(shown_before(paths, first[b] as int, first[a] as int));
            } else if c < a {
                assert(first[c] == second[c]);
                assert(shown_before(paths, second[c] as int, second[a] as int));
            } else {
                assert(shown_before(paths, first[a] as int, first[c] as int));
                assert(shown_before(paths, second[a] as int, second[b] as int));
            }
        }
    }
}

/// There is one display order only.
pub proof fn lemma_display_order_unique(
    paths: Seq<Seq<char>>,
    first: Seq<usize>,
    second: Seq<usize>,
)
    requires
        is_display_order(paths, first),
        is_display_order(paths, second),
    ensures
        first == second,
        first == display_order(paths),
{
    lemma_same_prefix(paths, first, second, paths.len() as int);
    assert(first =~= second);
    lemma_same_prefix(paths, first, display_order(paths), paths.len() as int);
    assert(first =~= display_order(paths));
}

/// Whether the file with the first directory and name is shown strictly
/// before the one with the second, by place alone.
fn place_before(
    dir_a: &Vec<char>,
    name_a: &Vec<char>,
    dir_b: &Vec<char>,
    name_b: &Vec<char>,
) -> (res: bool)
    ensures
        res == (lex_less(dir_a@, dir_b@) || (dir_a@ == dir_b@ && lex_less(name_a@, name_b@))),
{
    chars_less(dir_a, dir_b) || (chars_equal(dir_a, dir_b) && chars_less(name_a, name_b))
}

impl CommitMetadata {
    /// The indices of the file changes in display order: by directory, then
    /// by file name, files outside any directory first. Files with the same
    /// directory and name keep their order.
    pub fn sorted_file_indices(&self) -> (res: Vec<usize>)
        ensures
            is_display_order(change_paths(self.changes@), res@),
            res@ == display_order(change_paths(self.changes@)),
    {
        let ghost paths = change_paths(self.changes@);
        let n = self.changes.len();
        let mut dirs: Vec<Vec<char>> = Vec::new();
        let mut names: Vec<Vec<char>> = Vec::new();
        let mut i: usize = 0;
        while i < n
            invariant
                i <= n,
                n == self.changes.len(),
                paths == change_paths(self.changes@),
                dirs.len() == i,
                names.len() == i,
                forall|k: int| 0 <= k < i ==> (#[trigger] dirs[k])@ == dir_name(paths[k]),
                forall|k: int| 0 <= k < i ==> (#[trigger] names[k])@ == file_name(paths[k]),
            decreases n - i,
        {
            let chars = str_chars(self.changes[i].path.as_str());
            let start = find_file_name_start(&chars);
            let name = chars_slice(&chars, start, chars.len());
            let dir = if start == 0 {
                Vec::new()
            } else {
                chars_slice(&chars, 0, start - 1)
            };
            assert(dir@ =~= dir_name(paths[i as int]));
            dirs.push(dir);
            names.push(name);
            i += 1;
        }
        let mut order: Vec<usize> = Vec::new();
        let mut k: usize = 0;
        while k < n
            invariant
                k <= n,
                n == paths.len(),
                dirs.len() == n,
                names.len() == n,
                forall|j: int| 0 <= j < n ==> (#[trigger] dirs[j])@ == dir_name(paths[j]),
                forall|j: int| 0 <= j < n ==> (#[trigger] names[j])@ == file_name(paths[j]),
                order.len() == k,
                forall|a: int| 0 <= a < order.len() ==> (#[trigger] order[a]) < k,
                forall|a: int, b: int|
                    0 <= a < b < order.len() ==> shown_before(
                        paths,
                        order[a] as int,
                        order[b] as int,
                    ),
                forall|j: usize| j < k ==> order@.contains(j),
            decreases n - k,
        {
            let mut p: usize = 0;
            while p < order.len() && !place_before(
                &dirs[k],
                &names[k],
                &dirs[order[p]],
                &names[order[p]],
            )
                invariant
                    p <= order.len(),
                    k < n,
                    n == paths.len(),
                    dirs.len() == n,
                    names.len() == n,
                    forall|j: int| 0 <= j < n ==> (#[trigger] dirs[j])@ == dir_name(paths[j]),
                    forall|j: int| 0 <= j < n ==> (#[trigger] names[j])@ == file_name(paths[j]),
                    forall|a: int| 0 <= a < order.len() ==> (#[trigger] order[a]) < k,
                    forall|a: int|
                        0 <= a < p ==> !path_before(paths[k as int], paths[order[a] as int]),
                decreases order.len() - p,
            {
                p += 1;
            }
            let ghost before = order@;
            order.insert(p, k);
            proof {
                let after = order@;
                assert forall|a: int| 0 <= a < after.len() implies (#[trigger] after[a]) < k
                    + 1 by {
                    if a < p {
                        assert(after[a] == before[a]);
                    } else if a > p {
                        assert(after[a] == before[a - 1]);
                    }
                }
                assert forall|a: int, b: int| 0 <= a < b < after.len() implies shown_before(
                    paths,
                    after[a] as int,
                    after[b] as int,
                ) by {
                    if b < p {
                        assert(after[a] == before[a] && after[b] == before[b]);
                    } else if b == p {
                        assert(after[a] == before[a]);
                        lemma_path_order(paths[k as int], paths[before[a] as int]);
                    } else if a == p {
                        assert(after[b] == before[b - 1]);
                        assert(path_before(paths[k as int], paths[before[p as int] as int]));
                        if b - 1 > p {
                            assert(shown_before(
                                paths,
                                before[p as int] as int,
                                before[b - 1] as int,
                            ));
                            lemma_path_before_transitive(
                                paths[k as int],
                                paths[before[p as int] as int],
                                paths[before[b - 1] as int],
                            );
                        }
                    } else if a < p {
                        assert(after[a] == before[a] && after[b] == before[b - 1]);
                    } else {
                        assert(after[a] == before[a - 1] && after[b] == before[b - 1]);
                    }
                }
                assert forall|j: usize| j < k + 1 implies after.contains(j) by {
                    if j == k {
                        assert(after[p as int] == k);
                    } else {
                        assert(before.contains(j));
                        let a = choose|a: int| 0 <= a < before.len() && before[a] == j;
                        if a < p {
                            assert(after[a] == j);
                        } else {
                            assert(after[a + 1] == j);
                        }
                    }
                }
            }
            k += 1;
        }
        proof {
            lemma_display_order_unique(paths, order@, order@);
        }
        order
    }

    /// Whether the record stands for the working tree rather than a commit.
    pub fn is_working_tree(&self) -> (res: bool)
        ensures
            res == (self.hash@ == "working-tree"@),
    {
        let hash = str_chars(self.hash.as_str());
        let mark = str_chars("working-tree");
        chars_equal(&hash, &mark)
    }

    /// The text shown for the hash: `working` for the working tree, else the
    /// first seven characters of the hash.
    pub fn hash_display(&self) -> (res: String)
        ensures
            res@ == hash_display_of(self.hash@),
    {
        if self.is_working_tree() {
            return "working".to_owned();
        }
        let hash = str_chars(self.hash.as_str());
        let end = if hash.len() <= 7 {
            hash.len()
        } else {
            7
        };
        let res = chars_to_string(&hash, 0, end);
        assert(hash@.subrange(0, end as int) =~= hash_display_of(self.hash@));
        res
    }

    /// The lines of the message that hold more than whitespace, in order.
    pub fn message_lines(&self) -> (res: Vec<String>)
        ensures
            texts(res@) == message_lines_of(self.message@),
    {
        let lines = split_lines(self.message.as_str());
        let ghost all = texts(lines@);
        let ghost shown = |line: Seq<char>| !is_blank(line);
        let mut out: Vec<String> = Vec::new();
        let mut i: usize = 0;
        proof {
            reveal(Seq::filter);
            assert(all.take(0).filter(shown) =~= Seq::<Seq<char>>::empty());
            assert(texts(out@) =~= Seq::<Seq<char>>::empty());
        }
        while i < lines.len()
            invariant
                i <= lines.len(),
                all == texts(lines@),
                shown == (|line: Seq<char>| !is_blank(line)),
                texts(out@) == all.take(i as int).filter(shown),
            decreases lines.len() - i,
        {
            let chars = str_chars(lines[i].as_str());
            let blank = count_leading_space(&chars) == chars.len();
            proof {
                assert(all.take(i + 1) =~= all.take(i as int).push(all[i as int]));
                all.take(i as int).lemma_filter_push(all[i as int], shown);
            }
            if !blank {
                let ghost before = texts(out@);
                out.push(lines[i].clone());
                assert(texts(out@) =~= before.push(all[i as int]));
            }
            i += 1;
        }
        proof {
            assert(all.take(i as int) =~= all);
        }
        out
    }
}

/// Builds the record of a commit from what was read of it: the message is
/// trimmed, and each file entry of the tree diff becomes a `FileChange`.
pub fn extract_metadata_with_changes(
    policy: &ExclusionPolicy,
    commit: &RawCommit,
    algo: DiffAlgorithm,
) -> (res: CommitMetadata)
    ensures
        res.hash@ == commit.hash@,
        res.author@ == commit.author@,
        res.timestamp == commit.timestamp,
        res.message@ == trimmed(commit.message@),
        file_change_views(res.changes@) == file_changes_of(
            policy.patterns(),
            commit.changes@,
            algo,
        ),
        forall|i: int| 0 <= i < res.changes.len() ==> (#[trigger] res.changes[i])@.well_formed(),
{
    CommitMetadata {
        hash: commit.hash.clone(),
        author: commit.author.clone(),
        timestamp: commit.timestamp,
        message: trim(commit.message.as_str()),
        changes: extract_changes(policy, &commit.changes, algo),
    }
}

} // verus!
