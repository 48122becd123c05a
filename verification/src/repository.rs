//! Playback state of a repository: which commit is shown next.
//!
//! `GitRepository` owns the candidate list of the whole history, an optional
//! explicit range, and one cursor shared by both. It never touches the
//! repository itself: where it needs the history it says so, and the caller
//! walks it and hands the walk to `populate_cache`.

use crate::history::candidates;
use crate::history::non_merge_commits;
use crate::history::CommitId;
use crate::history::WalkedCommit;
use vstd::prelude::*;

verus! {

/// What a selection asks of the caller.
#[derive(Debug, Clone, Copy, PartialEq, Eq)]
pub enum Selection {
    /// The history has not been walked yet: walk it from `HEAD`, hand it to
    /// `populate_cache`, and ask again.
    NeedsHistory,
    /// Show this commit.
    Commit(CommitId),
}

/// Why no commit was selected.
#[derive(Debug, Clone, Copy, PartialEq, Eq)]
pub enum SelectError {
    /// The history holds no playable commit.
    NoCommits,
    /// Sequential playback of the history has shown every commit.
    AllPlayed,
    /// A range operation was called before a range was set.
    RangeNotSet,
    /// The range holds no commit.
    EmptyRange,
    /// Sequential playback of the range has shown every commit.
    RangePlayed,
}

impl SelectError {
    /// The text of the error.
    pub open spec fn text(self) -> Seq<char> {
        match self {
            SelectError::NoCommits => "No non-merge commits found in repository"@,
            SelectError::AllPlayed => "All commits have been played"@,
            SelectError::RangeNotSet => "Commit range not set"@,
            SelectError::EmptyRange => "No commits in range"@,
            SelectError::RangePlayed => "All commits in range have been played"@,
        }
    }

    /// A human-readable message for the error.
    pub fn message(&self) -> (res: &'static str)
        ensures
            res@ == self.text(),
    {
        match self {
            SelectError::NoCommits => "No non-merge commits found in repository",
            SelectError::AllPlayed => "All commits have been played",
            SelectError::RangeNotSet => "Commit range not set",
            SelectError::EmptyRange => "No commits in range",
            SelectError::RangePlayed => "All commits in range have been played",
        }
    }
}

/// The commit that the cursor points at. Reading from the tail, cursor 0 is
/// the last element of the list; reading from the head, the first.
pub open spec fn pick(list: Seq<CommitId>, cursor: int, from_tail: bool) -> CommitId {
    if from_tail {
        list[list.len() - 1 - cursor]
    } else {
        list[cursor]
    }
}

/// The commits that sequential playback shows, in the order it shows them,
/// when run from cursor 0 until the list is exhausted.
pub open spec fn playback(list: Seq<CommitId>, from_tail: bool) -> Seq<CommitId> {
    Seq::new(list.len(), |k: int| pick(list, k, from_tail))
}

/// One step of sequential playback over `list`: what is returned, and the
/// cursor afterwards.
pub open spec fn step(
    list: Seq<CommitId>,
    cursor: nat,
    from_tail: bool,
    empty: SelectError,
    played: SelectError,
) -> (Result<Selection, SelectError>, nat) {
    if list.len() == 0 {
        (Err(empty), cursor)
    } else if cursor >= list.len() {
        (Err(played), cursor)
    } else {
        (Ok(Selection::Commit(pick(list, cursor as int, from_tail))), cursor + 1)
    }
}

/// Playing a list from the tail and from the head shows the same commits,
/// each position of the list exactly once, in opposite orders: step `k` of
/// either order shows entry `k` of its playback, and the step after the last
/// entry reports exhaustion.
pub proof fn lemma_playback_orders_mirror(list: Seq<CommitId>)
    ensures
        playback(list, false) == list,
        playback(list, true) == list.reverse(),
        playback(list, true) == playback(list, false).reverse(),
        playback(list, true).to_multiset() == playback(list, false).to_multiset(),
        forall|k: int|
            0 <= k < list.len() ==> pick(list, k, true) == pick(list, list.len() - 1 - k, false),
        forall|k: nat, from_tail: bool, empty: SelectError, played: SelectError|
            k < list.len() ==> #[trigger] step(list, k, from_tail, empty, played) == (
                Ok::<Selection, SelectError>(Selection::Commit(playback(list, from_tail)[k as int])),
                k + 1,
            ),
        forall|from_tail: bool, empty: SelectError, played: SelectError|
            list.len() > 0 ==> #[trigger] step(list, list.len(), from_tail, empty, played) == (
                Err::<Selection, SelectError>(played),
                list.len(),
            ),
{
    assert(playback(list, false) =~= list);
    assert(playback(list, true) =~= list.reverse());
    list.lemma_reverse_to_multiset();
}

/// Calls `rand::Rng::random_range` on the thread's generator with the range
/// `0..len`. Trusted: the number lies in the range. The call panics on an
/// empty range, which `requires` rules out.
#[verifier::external_body]
fn random_index(len: usize) -> (res: usize)
    requires
        len > 0,
    ensures
        res < len,
{
    rand::Rng::random_range(&mut rand::rng(), 0..len)
}

/// Playback state over the history of one repository.
pub struct GitRepository {
    commit_cache: Option<Vec<CommitId>>,
    commit_index: usize,
    commit_range: Option<Vec<CommitId>>,
}

pub open spec fn list_view(list: Option<Vec<CommitId>>) -> Option<Seq<CommitId>> {
    match list {
        Some(l) => Some(l@),
        None => None,
    }
}

impl GitRepository {
    /// The cached candidate list of the whole history, newest first; `None`
    /// until the history was walked.
    pub closed spec fn cache(&self) -> Option<Seq<CommitId>> {
        list_view(self.commit_cache)
    }

    /// The commits of the explicit range, oldest first; `None` until a range
    /// was set.
    pub closed spec fn range(&self) -> Option<Seq<CommitId>> {
        list_view(self.commit_range)
    }

    /// The playback cursor.
    pub closed spec fn cursor(&self) -> nat {
        self.commit_index as nat
    }

    /// A state without history, without range, with the cursor at 0.
    pub fn new() -> (res: GitRepository)
        ensures
            res.cache() is None,
            res.range() is None,
            res.cursor() == 0,
    {
        GitRepository { commit_cache: None, commit_index: 0, commit_range: None }
    }

    /// The position of the cursor.
    pub fn index(&self) -> (res: usize)
        ensures
            res == self.cursor(),
    {
        self.commit_index
    }

    /// Whether the history was walked and cached.
    pub fn has_cache(&self) -> (res: bool)
        ensures
            res == (self.cache() is Some),
    {
        self.commit_cache.is_some()
    }

    /// Caches the playable commits of a history walk from `HEAD`, newest
    /// first, unless a cache exists already. A history without playable
    /// commits is an error and leaves the state without cache.
    pub fn populate_cache(&mut self, walk: &Vec<WalkedCommit>) -> (res: Result<(), SelectError>)
        ensures
            final(self).range() == old(self).range(),
            final(self).cursor() == old(self).cursor(),
            old(self).cache() is Some ==> res is Ok && final(self).cache() == old(self).cache(),
            old(self).cache() is None && candidates(walk@).len() == 0 ==> res == Err::<
                (),
                SelectError,
            >(SelectError::NoCommits) && final(self).cache() is None,
            old(self).cache() is None && candidates(walk@).len() > 0 ==> res is Ok
                && final(self).cache() == Some(candidates(walk@)),
    {
        if self.commit_cache.is_some() {
            return Ok(());
        }
        let found = non_merge_commits(walk);
        if found.len() == 0 {
            return Err(SelectError::NoCommits);
        }
        self.commit_cache = Some(found);
        Ok(())
    }

    /// Sets the cursor back to 0. The cache and the range stay.
    pub fn reset_index(&mut self)
        ensures
            final(self).cursor() == 0,
            final(self).cache() == old(self).cache(),
            final(self).range() == old(self).range(),
    {
        self.commit_index = 0;
    }

    /// Makes `commits`, oldest first, the explicit range and sets the cursor
    /// back to 0. A range set before is replaced; the cache stays.
    pub fn set_commit_range(&mut self, commits: Vec<CommitId>)
        ensures
            final(self).range() == Some(commits@),
            final(self).cursor() == 0,
            final(self).cache() == old(self).cache(),
    {
        self.commit_range = Some(commits);
        self.commit_index = 0;
    }

    /// The commit at `index` of the cached history, if there is one.
    pub fn cached_commit(&self, index: usize) -> (res: Option<CommitId>)
        ensures
            res == if self.cache() is Some && index < self.cache()->Some_0.len() {
                Some(self.cache()->Some_0[index as int])
            } else {
                None
            },
    {
        match &self.commit_cache {
            Some(list) => if index < list.len() {
                Some(list[index])
            } else {
                None
            },
            None => None,
        }
    }

    /// The commit at `index` of the range, if there is one.
    pub fn range_commit(&self, index: usize) -> (res: Option<CommitId>)
        ensures
            res == if self.range() is Some && index < self.range()->Some_0.len() {
                Some(self.range()->Some_0[index as int])
            } else {
                None
            },
    {
        match &self.commit_range {
            Some(list) => if index < list.len() {
                Some(list[index])
            } else {
                None
            },
            None => None,
        }
    }

    /// Picks a commit of the cached history at random. Asks for the history
    /// while there is no cache; fails when the cache is empty. The cursor is
    /// not touched.
    pub fn random_commit(&self) -> (res: Result<Selection, SelectError>)
        ensures
            self.cache() is None ==> res == Ok::<Selection, SelectError>(Selection::NeedsHistory),
            self.cache() is Some && self.cache()->Some_0.len() == 0 ==> res == Err::<
                Selection,
                SelectError,
            >(SelectError::NoCommits),
            self.cache() is Some && self.cache()->Some_0.len() > 0 ==> res is Ok
                && res->Ok_0 is Commit && self.cache()->Some_0.contains(res->Ok_0->Commit_0),
    {
        match &self.commit_cache {
            None => Ok(Selection::NeedsHistory),
            Some(list) => {
                if list.len() == 0 {
                    return Err(SelectError::NoCommits);
                }
                let index = random_index(list.len());
                Ok(Selection::Commit(list[index]))
            },
        }
    }

    /// Picks a commit of the range at random. Fails when no range is set or
    /// the range is empty. The cursor is not touched.
    pub fn random_range_commit(&self) -> (res: Result<CommitId, SelectError>)
        ensures
            self.range() is None ==> res == Err::<CommitId, SelectError>(SelectError::RangeNotSet),
            self.range() is Some && self.range()->Some_0.len() == 0 ==> res == Err::<
                CommitId,
                SelectError,
            >(SelectError::EmptyRange),
            self.range() is Some && self.range()->Some_0.len() > 0 ==> res is Ok
                && self.range()->Some_0.contains(res->Ok_0),
    {
        match &self.commit_range {
            None => Err(SelectError::RangeNotSet),
            Some(list) => {
                if list.len() == 0 {
                    return Err(SelectError::EmptyRange);
                }
                let index = random_index(list.len());
                Ok(list[index])
            },
        }
    }

    /// The next commit of the history in ascending order, oldest first: the
    /// cache is read from its tail. Asks for the history while there is no
    /// cache. Each commit shown moves the cursor by one; once the cursor has
    /// reached the length of the cache, playback is exhausted.
    pub fn next_asc_commit(&mut self) -> (res: Result<Selection, SelectError>)
        ensures
            final(self).cache() == old(self).cache(),
            final(self).range() == old(self).range(),
            old(self).cache() is None ==> res == Ok::<Selection, SelectError>(
                Selection::NeedsHistory,
            ) && final(self).cursor() == old(self).cursor(),
            old(self).cache() is Some ==> (res, final(self).cursor()) == step(
                old(self).cache()->Some_0,
                old(self).cursor(),
                true,
                SelectError::NoCommits,
                SelectError::AllPlayed,
            ),
    {
        match &self.commit_cache {
            None => Ok(Selection::NeedsHistory),
            Some(list) => {
                if list.len() == 0 {
                    return Err(SelectError::NoCommits);
                }
                if self.commit_index >= list.len() {
                    return Err(SelectError::AllPlayed);
                }
                let id = list[list.len() - 1 - self.commit_index];
                self.commit_index += 1;
                Ok(Selection::Commit(id))
            },
        }
    }

    /// The next commit of the history in descending order, newest first: the
    /// cache is read from its head. Otherwise as `next_asc_commit`.
    pub fn next_desc_commit(&mut self) -> (res: Result<Selection, SelectError>)
        ensures
            final(self).cache() == old(self).cache(),
            final(self).range() == old(self).range(),
            old(self).cache() is None ==> res == Ok::<Selection, SelectError>(
                Selection::NeedsHistory,
            ) && final(self).cursor() == old(self).cursor(),
            old(self).cache() is Some ==> (res, final(self).cursor()) == step(
                old(self).cache()->Some_0,
                old(self).cursor(),
                false,
                SelectError::NoCommits,
                SelectError::AllPlayed,
            ),
    {
        match &self.commit_cache {
            None => Ok(Selection::NeedsHistory),
            Some(list) => {
                if list.len() == 0 {
                    return Err(SelectError::NoCommits);
                }
                if self.commit_index >= list.len() {
                    return Err(SelectError::AllPlayed);
                }
                let id = list[self.commit_index];
                self.commit_index += 1;
                Ok(Selection::Commit(id))
            },
        }
    }

    /// The next commit of the range in ascending order, oldest first: the
    /// range is read from its head. Fails when no range is set, the range is
    /// empty, or every commit of it has been shown.
    pub fn next_range_commit_asc(&mut self) -> (res: Result<Selection, SelectError>)
        ensures
            final(self).cache() == old(self).cache(),
            final(self).range() == old(self).range(),
            old(self).range() is None ==> res == Err::<Selection, SelectError>(
                SelectError::RangeNotSet,
            ) && final(self).cursor() == old(self).cursor(),
            old(self).range() is Some ==> (res, final(self).cursor()) == step(
                old(self).range()->Some_0,
                old(self).cursor(),
                false,
                SelectError::EmptyRange,
                SelectError::RangePlayed,
            ),
    {
        match &self.commit_range {
            None => Err(SelectError::RangeNotSet),
            Some(list) => {
                if list.len() == 0 {
                    return Err(SelectError::EmptyRange);
                }
                if self.commit_index >= list.len() {
                    return Err(SelectError::RangePlayed);
                }
                let id = list[self.commit_index];
                self.commit_index += 1;
                Ok(Selection::Commit(id))
            },
        }
    }

    /// The next commit of the range in descending order, newest first: the
    /// range is read from its tail. Otherwise as `next_range_commit_asc`.
    pub fn next_range_commit_desc(&mut self) -> (res: Result<Selection, SelectError>)
        ensures
            final(self).cache() == old(self).cache(),
            final(self).range() == old(self).range(),
            old(self).range() is None ==> res == Err::<Selection, SelectError>(
                SelectError::RangeNotSet,
            ) && final(self).cursor() == old(self).cursor(),
            old(self).range() is Some ==> (res, final(self).cursor()) == step(
                old(self).range()->Some_0,
                old(self).cursor(),
                true,
                SelectError::EmptyRange,
                SelectError::RangePlayed,
            ),
    {
        match &self.commit_range {
            None => Err(SelectError::RangeNotSet),
            Some(list) => {
                if list.len() == 0 {
                    return Err(SelectError::EmptyRange);
                }
                if self.commit_index >= list.len() {
                    return Err(SelectError::RangePlayed);
                }
                let id = list[list.len() - 1 - self.commit_index];
                self.commit_index += 1;
                Ok(Selection::Commit(id))
            },
        }
    }
}

} // verus!
