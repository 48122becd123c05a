//! Candidate lists: which commits of a history walk can be played.
//!
//! The caller walks the history newest-first and reports, for each commit, its
//! id and how many parents it has. Merge commits and commits that could not
//! be read are left out. A range additionally hides every ancestor of its
//! lower bound and is handed out oldest-first.

use vstd::prelude::*;

verus! {

/// A SHA-1 object id.
#[derive(Debug, Clone, Copy, PartialEq, Eq, Hash)]
pub struct CommitId {
    pub bytes: [u8; 20],
}

/// One commit of a history walk.
#[derive(Debug, Clone, Copy, PartialEq, Eq)]
pub struct WalkedCommit {
    pub id: CommitId,
    /// Number of parents, or `None` where the commit could not be read.
    pub parent_count: Option<usize>,
}

/// A set of commit ids, kept in `gix`'s hash table for object ids.
#[verifier::external_body]
pub struct CommitIdSet {
    ids: gix::hashtable::HashSet,
}

/// The ids that a set holds.
pub uninterp spec fn set_ids(set: CommitIdSet) -> Set<CommitId>;

/// Makes an empty `gix::hashtable::HashSet`. Trusted: it holds no id.
#[verifier::external_body]
fn id_set_new() -> (res: CommitIdSet)
    ensures
        set_ids(res) == Set::<CommitId>::empty(),
{
    CommitIdSet { ids: gix::hashtable::HashSet::default() }
}

/// Calls `insert` of `gix::hashtable::HashSet`. Trusted: afterwards the set
/// holds the id besides what it held.
#[verifier::external_body]
fn id_set_insert(set: &mut CommitIdSet, id: CommitId)
    ensures
        set_ids(*final(set)) == set_ids(*old(set)).insert(id),
{
    set.ids.insert(gix::ObjectId::from(id.bytes));
}

/// Calls `contains` of `gix::hashtable::HashSet`. Trusted: it tells whether
/// the set holds the id.
#[verifier::external_body]
fn id_set_contains(set: &CommitIdSet, id: CommitId) -> (res: bool)
    ensures
        res == set_ids(*set).contains(id),
{
    set.ids.contains(&gix::ObjectId::from(id.bytes))
}

/// A commit can be played when it was read and is no merge: it has at most
/// one parent.
pub open spec fn is_candidate(commit: WalkedCommit) -> bool {
    commit.parent_count is Some && commit.parent_count->Some_0 <= 1
}

/// The ids of a walk, in order.
pub open spec fn ids_of(walk: Seq<WalkedCommit>) -> Seq<CommitId> {
    walk.map_values(|c: WalkedCommit| c.id)
}

/// The playable commits of a walk that are not hidden, in walk order.
pub open spec fn visible_candidates(walk: Seq<WalkedCommit>, hidden: Set<CommitId>) -> Seq<
    CommitId,
> {
    ids_of(walk.filter(|c: WalkedCommit| is_candidate(c) && !hidden.contains(c.id)))
}

/// The playable commits of a walk, in walk order.
pub open spec fn candidates(walk: Seq<WalkedCommit>) -> Seq<CommitId> {
    visible_candidates(walk, Set::empty())
}

/// The commits of a range, oldest first: the playable commits of the walk
/// from the upper bound that are not hidden, in reverse walk order.
pub open spec fn range_commits(walk: Seq<WalkedCommit>, hidden: Set<CommitId>) -> Seq<CommitId> {
    visible_candidates(walk, hidden).reverse()
}

/// What the walk from a range's lower bound hides: every id on it, or nothing
/// where the range has no lower bound.
pub open spec fn hidden_by(lower_walk: Option<Seq<CommitId>>) -> Set<CommitId> {
    match lower_walk {
        Some(walk) => walk.to_set(),
        None => Set::empty(),
    }
}

pub open spec fn ids_view(walk: Option<&Vec<CommitId>>) -> Option<Seq<CommitId>> {
    match walk {
        Some(w) => Some(w@),
        None => None,
    }
}

proof fn lemma_visible_step(walk: Seq<WalkedCommit>, hidden: Set<CommitId>, i: int)
    requires
        0 <= i < walk.len(),
    ensures
        visible_candidates(walk.take(i + 1), hidden) == if is_candidate(walk[i])
            && !hidden.contains(walk[i].id) {
            visible_candidates(walk.take(i), hidden).push(walk[i].id)
        } else {
            visible_candidates(walk.take(i), hidden)
        },
{
    let pred = |c: WalkedCommit| is_candidate(c) && !hidden.contains(c.id);
    assert(walk.take(i + 1) =~= walk.take(i).push(walk[i]));
    walk.take(i).lemma_filter_push(walk[i], pred);
    let kept = walk.take(i).filter(pred);
    if pred(walk[i]) {
        assert(ids_of(kept.push(walk[i])) =~= ids_of(kept).push(walk[i].id));
    }
}

/// Collects the ids of a walk into a set.
fn collect_ids(walk: &Vec<CommitId>) -> (res: CommitIdSet)
    ensures
        set_ids(res) == walk@.to_set(),
{
    let mut set = id_set_new();
    let mut i: usize = 0;
    proof {
        assert(walk@.take(0).to_set() =~= Set::<CommitId>::empty());
    }
    while i < walk.len()
        invariant
            i <= walk.len(),
            set_ids(set) == walk@.take(i as int).to_set(),
        decreases walk.len() - i,
    {
        id_set_insert(&mut set, walk[i]);
        proof {
            assert(walk@.take(i + 1) =~= walk@.take(i as int).push(walk@[i as int]));
            walk@.take(i as int).lemma_push_to_set_commute(walk@[i as int]);
        }
        i += 1;
    }
    proof {
        assert(walk@.take(i as int) =~= walk@);
    }
    set
}

/// The playable commits of a history walk, in walk order: those that were
/// read and have at most one parent.
pub fn non_merge_commits(walk: &Vec<WalkedCommit>) -> (res: Vec<CommitId>)
    ensures
        res@ == candidates(walk@),
{
    let mut out: Vec<CommitId> = Vec::new();
    let mut i: usize = 0;
    proof {
        let pred = |c: WalkedCommit| is_candidate(c) && !Set::<CommitId>::empty().contains(c.id);
        reveal(Seq::filter);
        assert(walk@.take(0).filter(pred) =~= Seq::<WalkedCommit>::empty());
        assert(candidates(walk@.take(0)) =~= Seq::<CommitId>::empty());
    }
    while i < walk.len()
        invariant
            i <= walk.len(),
            out@ == candidates(walk@.take(i as int)),
        decreases walk.len() - i,
    {
        proof {
            lemma_visible_step(walk@, Set::empty(), i as int);
        }
        let keep = match walk[i].parent_count {
            Some(n) => n <= 1,
            None => false,
        };
        if keep {
            out.push(walk[i].id);
        }
        i += 1;
    }
    proof {
        assert(walk@.take(i as int) =~= walk@);
    }
    out
}

/// The commits of a range, oldest first. `upper_walk` is the history walk
/// from the range's upper bound, newest first; `lower_walk` holds the ids of
/// the walk from its lower bound, or `None` where the range has none. Kept
/// are the playable commits of the upper walk that the lower walk does not
/// reach.
pub fn commits_in_range(upper_walk: &Vec<WalkedCommit>, lower_walk: Option<&Vec<CommitId>>) -> (res:
    Vec<CommitId>)
    ensures
        res@ == range_commits(upper_walk@, hidden_by(ids_view(lower_walk))),
{
    let hidden = match lower_walk {
        Some(walk) => collect_ids(walk),
        None => id_set_new(),
    };
    let ghost hide = hidden_by(ids_view(lower_walk));
    assert(set_ids(hidden) == hide);
    let mut kept: Vec<CommitId> = Vec::new();
    let mut i: usize = 0;
    proof {
        let pred = |c: WalkedCommit| is_candidate(c) && !hide.contains(c.id);
        reveal(Seq::filter);
        assert(upper_walk@.take(0).filter(pred) =~= Seq::<WalkedCommit>::empty());
        assert(visible_candidates(upper_walk@.take(0), hide) =~= Seq::<CommitId>::empty());
    }
    while i < upper_walk.len()
        invariant
            i <= upper_walk.len(),
            set_ids(hidden) == hide,
            kept@ == visible_candidates(upper_walk@.take(i as int), hide),
        decreases upper_walk.len() - i,
    {
        proof {
            lemma_visible_step(upper_walk@, hide, i as int);
        }
        if !id_set_contains(&hidden, upper_walk[i].id) {
            let keep = match upper_walk[i].parent_count {
                Some(n) => n <= 1,
                None => false,
            };
            if keep {
                kept.push(upper_walk[i].id);
            }
        }
        i += 1;
    }
    proof {
        assert(upper_walk@.take(i as int) =~= upper_walk@);
    }
    reversed(&kept)
}

/// The same ids in reverse order.
pub fn reversed(ids: &Vec<CommitId>) -> (res: Vec<CommitId>)
    ensures
        res@ == ids@.reverse(),
{
    let mut out: Vec<CommitId> = Vec::new();
    let mut i: usize = ids.len();
    while i > 0
        invariant
            i <= ids.len(),
            out.len() == ids.len() - i,
            forall|k: int| 0 <= k < out.len() ==> out@[k] == ids@[ids.len() - 1 - k],
        decreases i,
    {
        i -= 1;
        out.push(ids[i]);
    }
    assert(out@ =~= ids@.reverse());
    out
}

proof fn lemma_reverse_push<A>(s: Seq<A>, x: A)
    ensures
        s.push(x).reverse() == seq![x] + s.reverse(),
{
    assert(s.push(x).reverse() =~= seq![x] + s.reverse());
}

proof fn lemma_filter_reverse<A>(s: Seq<A>, p: spec_fn(A) -> bool)
    ensures
        s.filter(p).reverse() == s.reverse().filter(p),
    decreases s.len(),
{
    reveal(Seq::filter);
    if s.len() == 0 {
        assert(s.filter(p) =~= Seq::<A>::empty());
        assert(s.reverse() =~= Seq::<A>::empty());
    } else {
        let t = s.drop_last();
        let x = s.last();
        assert(s =~= t.push(x));
        lemma_filter_reverse(t, p);
        lemma_reverse_push(t, x);
        t.lemma_filter_push(x, p);
        t.reverse().lemma_filter_prepend(x, p);
        if p(x) {
            lemma_reverse_push(t.filter(p), x);
        } else {
            assert(Seq::<A>::empty() + t.reverse().filter(p) =~= t.reverse().filter(p));
        }
    }
}

proof fn lemma_all_candidates_visible(walk: Seq<WalkedCommit>)
    requires
        forall|i: int| 0 <= i < walk.len() ==> is_candidate(#[trigger] walk[i]),
    ensures
        candidates(walk) == ids_of(walk),
    decreases walk.len(),
{
    let pred = |c: WalkedCommit| is_candidate(c) && !Set::<CommitId>::empty().contains(c.id);
    reveal(Seq::filter);
    if walk.len() == 0 {
        assert(walk.filter(pred) =~= walk);
    } else {
        let rest = walk.drop_last();
        assert forall|i: int| 0 <= i < rest.len() implies is_candidate(#[trigger] rest[i]) by {
            assert(rest[i] == walk[i]);
        }
        lemma_all_candidates_visible(rest);
        assert(walk =~= rest.push(walk.last()));
        rest.lemma_filter_push(walk.last(), pred);
        assert(is_candidate(walk[walk.len() - 1]));
        assert(ids_of(rest.filter(pred).push(walk.last())) =~= ids_of(rest.filter(pred)).push(
            walk.last().id,
        ));
        assert(ids_of(walk) =~= ids_of(rest).push(walk.last().id));
    }
}

/// The test "is not among `ids`".
pub open spec fn absent_from(ids: Seq<CommitId>) -> spec_fn(CommitId) -> bool {
    |c: CommitId| !ids.contains(c)
}

spec fn outside(hidden: Set<CommitId>) -> spec_fn(CommitId) -> bool {
    |c: CommitId| !hidden.contains(c)
}

proof fn lemma_hidden_is_filtered(walk: Seq<WalkedCommit>, hidden: Set<CommitId>)
    ensures
        visible_candidates(walk, hidden) == candidates(walk).filter(outside(hidden)),
    decreases walk.len(),
{
    let shown = outside(hidden);
    let all = |c: WalkedCommit| is_candidate(c) && !Set::<CommitId>::empty().contains(c.id);
    let some = |c: WalkedCommit| is_candidate(c) && !hidden.contains(c.id);
    reveal(Seq::filter);
    if walk.len() == 0 {
        assert(walk.filter(all) =~= Seq::<WalkedCommit>::empty());
        assert(walk.filter(some) =~= Seq::<WalkedCommit>::empty());
        assert(candidates(walk) =~= Seq::<CommitId>::empty());
        assert(visible_candidates(walk, hidden) =~= Seq::<CommitId>::empty());
    } else {
        let rest = walk.drop_last();
        let last = walk.last();
        lemma_hidden_is_filtered(rest, hidden);
        assert(walk =~= rest.push(last));
        rest.lemma_filter_push(last, all);
        rest.lemma_filter_push(last, some);
        if is_candidate(last) {
            assert(ids_of(rest.filter(all).push(last)) =~= ids_of(rest.filter(all)).push(last.id));
            candidates(rest).lemma_filter_push(last.id, shown);
            if !hidden.contains(last.id) {
                assert(ids_of(rest.filter(some).push(last)) =~= ids_of(rest.filter(some)).push(
                    last.id,
                ));
            }
        }
    }
}

/// A range with a lower bound is the range without one, minus every commit
/// of the range that ends at the lower bound, provided the history below the
/// lower bound holds only playable commits. All three are oldest-first.
pub proof fn lemma_range_is_upper_minus_lower(
    upper_walk: Seq<WalkedCommit>,
    lower_walk: Seq<WalkedCommit>,
)
    requires
        forall|i: int| 0 <= i < lower_walk.len() ==> is_candidate(#[trigger] lower_walk[i]),
    ensures
        range_commits(upper_walk, hidden_by(Some(ids_of(lower_walk)))) == range_commits(
            upper_walk,
            hidden_by(None),
        ).filter(absent_from(range_commits(lower_walk, hidden_by(None)))),
{
    let hidden = ids_of(lower_walk).to_set();
    let lower = range_commits(lower_walk, Set::empty());
    let by_set = outside(hidden);
    let by_list = absent_from(lower);
    lemma_all_candidates_visible(lower_walk);
    assert forall|c: CommitId| #[trigger] by_set(c) == by_list(c) by {
        let ids = ids_of(lower_walk);
        if ids.contains(c) {
            let i = choose|i: int| 0 <= i < ids.len() && ids[i] == c;
            assert(ids.reverse()[ids.len() - 1 - i] == c);
        }
        if ids.reverse().contains(c) {
            let i = choose|i: int| 0 <= i < ids.reverse().len() && ids.reverse()[i] == c;
            assert(ids[ids.len() - 1 - i] == c);
        }
    }
    assert(by_set =~= by_list);
    lemma_hidden_is_filtered(upper_walk, hidden);
    lemma_filter_reverse(candidates(upper_walk), by_set);
}

} // verus!
