use git_logue::history::commits_in_range;
use git_logue::history::non_merge_commits;
use git_logue::history::reversed;
use git_logue::history::CommitId;
use git_logue::history::WalkedCommit;
use git_logue::range::parse_commit_range;
use git_logue::range::RangeError;
use git_logue::range::RangeSpec;
use git_logue::repository::GitRepository;
use git_logue::repository::SelectError;
use git_logue::repository::Selection;

fn id(n: u8) -> CommitId {
    CommitId { bytes: [n; 20] }
}

fn walked(n: u8, parents: usize) -> WalkedCommit {
    WalkedCommit { id: id(n), parent_count: Some(parents) }
}

fn linear_walk(newest: u8) -> Vec<WalkedCommit> {
    (1..=newest).rev().map(|n| walked(n, if n == 1 { 0 } else { 1 })).collect()
}

fn play_all(repo: &mut GitRepository, ascending: bool) -> Vec<CommitId> {
    let mut shown = Vec::new();
    loop {
        let next = if ascending { repo.next_asc_commit() } else { repo.next_desc_commit() };
        match next {
            Ok(Selection::Commit(c)) => shown.push(c),
            Ok(Selection::NeedsHistory) => panic!("history was populated"),
            Err(e) => {
                assert_eq!(e, SelectError::AllPlayed);
                return shown;
            }
        }
    }
}

#[test]
fn merges_and_unreadable_commits_are_no_candidates() {
    let walk = vec![
        walked(5, 1),
        walked(4, 2),
        WalkedCommit { id: id(3), parent_count: None },
        walked(2, 3),
        walked(1, 0),
    ];
    assert_eq!(non_merge_commits(&walk), vec![id(5), id(1)]);
    assert_eq!(non_merge_commits(&Vec::new()), Vec::<CommitId>::new());
}

#[test]
fn new_state_asks_for_the_history() {
    let mut repo = GitRepository::new();
    assert!(!repo.has_cache());
    assert_eq!(repo.index(), 0);
    assert_eq!(repo.next_asc_commit(), Ok(Selection::NeedsHistory));
    assert_eq!(repo.next_desc_commit(), Ok(Selection::NeedsHistory));
    assert_eq!(repo.random_commit(), Ok(Selection::NeedsHistory));
    assert_eq!(repo.index(), 0);
}

#[test]
fn history_without_candidates_is_an_error() {
    let mut repo = GitRepository::new();
    assert_eq!(repo.populate_cache(&vec![walked(2, 2)]), Err(SelectError::NoCommits));
    assert!(!repo.has_cache());
    assert_eq!(SelectError::NoCommits.message(), "No non-merge commits found in repository");
}

#[test]
fn cache_is_populated_once() {
    let mut repo = GitRepository::new();
    assert_eq!(repo.populate_cache(&linear_walk(3)), Ok(()));
    assert_eq!(repo.populate_cache(&linear_walk(5)), Ok(()));
    assert_eq!(repo.cached_commit(0), Some(id(3)));
    assert_eq!(repo.cached_commit(2), Some(id(1)));
    assert_eq!(repo.cached_commit(3), None);
}

#[test]
fn ascending_playback_starts_with_the_oldest() {
    let mut repo = GitRepository::new();
    repo.populate_cache(&linear_walk(3)).unwrap();
    assert_eq!(repo.next_asc_commit(), Ok(Selection::Commit(id(1))));
    assert_eq!(repo.index(), 1);
    assert_eq!(repo.next_asc_commit(), Ok(Selection::Commit(id(2))));
    assert_eq!(repo.next_asc_commit(), Ok(Selection::Commit(id(3))));
    assert_eq!(repo.index(), 3);
    assert_eq!(repo.next_asc_commit(), Err(SelectError::AllPlayed));
    assert_eq!(repo.index(), 3);
    assert_eq!(SelectError::AllPlayed.message(), "All commits have been played");
}

#[test]
fn descending_playback_starts_with_the_newest() {
    let mut repo = GitRepository::new();
    repo.populate_cache(&linear_walk(3)).unwrap();
    assert_eq!(repo.next_desc_commit(), Ok(Selection::Commit(id(3))));
    assert_eq!(repo.next_desc_commit(), Ok(Selection::Commit(id(2))));
    assert_eq!(repo.next_desc_commit(), Ok(Selection::Commit(id(1))));
    assert_eq!(repo.next_desc_commit(), Err(SelectError::AllPlayed));
}

#[test]
fn both_orders_show_every_commit_once_in_opposite_orders() {
    let mut repo = GitRepository::new();
    repo.populate_cache(&linear_walk(7)).unwrap();
    let ascending = play_all(&mut repo, true);
    repo.reset_index();
    let descending = play_all(&mut repo, false);
    assert_eq!(ascending.len(), 7);
    let mut mirrored = descending.clone();
    mirrored.reverse();
    assert_eq!(ascending, mirrored);
    let mut sorted = ascending.clone();
    sorted.sort_by_key(|c| c.bytes);
    sorted.dedup();
    assert_eq!(sorted.len(), 7);
}

#[test]
fn the_cursor_is_shared_by_both_orders() {
    let mut repo = GitRepository::new();
    repo.populate_cache(&linear_walk(4)).unwrap();
    assert_eq!(repo.next_asc_commit(), Ok(Selection::Commit(id(1))));
    assert_eq!(repo.next_desc_commit(), Ok(Selection::Commit(id(3))));
    repo.reset_index();
    assert_eq!(repo.index(), 0);
    assert_eq!(repo.next_desc_commit(), Ok(Selection::Commit(id(4))));
}

#[test]
fn random_commit_is_one_of_the_candidates() {
    let mut repo = GitRepository::new();
    repo.populate_cache(&linear_walk(5)).unwrap();
    for _ in 0..200 {
        match repo.random_commit() {
            Ok(Selection::Commit(c)) => assert!((1..=5).any(|n| id(n) == c)),
            other => panic!("unexpected selection: {:?}", other),
        }
    }
    assert_eq!(repo.index(), 0);
}

#[test]
fn random_commit_of_a_single_candidate() {
    let mut repo = GitRepository::new();
    repo.populate_cache(&linear_walk(1)).unwrap();
    assert_eq!(repo.random_commit(), Ok(Selection::Commit(id(1))));
}

#[test]
fn range_operations_need_a_range() {
    let mut repo = GitRepository::new();
    assert_eq!(repo.next_range_commit_asc(), Err(SelectError::RangeNotSet));
    assert_eq!(repo.next_range_commit_desc(), Err(SelectError::RangeNotSet));
    assert_eq!(repo.random_range_commit(), Err(SelectError::RangeNotSet));
    assert_eq!(SelectError::RangeNotSet.message(), "Commit range not set");
}

#[test]
fn empty_range_is_an_error() {
    let mut repo = GitRepository::new();
    repo.set_commit_range(Vec::new());
    assert_eq!(repo.next_range_commit_asc(), Err(SelectError::EmptyRange));
    assert_eq!(repo.next_range_commit_desc(), Err(SelectError::EmptyRange));
    assert_eq!(repo.random_range_commit(), Err(SelectError::EmptyRange));
    assert_eq!(SelectError::EmptyRange.message(), "No commits in range");
}

#[test]
fn range_playback_in_both_orders() {
    let mut repo = GitRepository::new();
    repo.set_commit_range(vec![id(1), id(2), id(3)]);
    assert_eq!(repo.next_range_commit_asc(), Ok(Selection::Commit(id(1))));
    assert_eq!(repo.next_range_commit_asc(), Ok(Selection::Commit(id(2))));
    assert_eq!(repo.next_range_commit_asc(), Ok(Selection::Commit(id(3))));
    assert_eq!(repo.next_range_commit_asc(), Err(SelectError::RangePlayed));
    assert_eq!(SelectError::RangePlayed.message(), "All commits in range have been played");
    repo.reset_index();
    assert_eq!(repo.next_range_commit_desc(), Ok(Selection::Commit(id(3))));
    assert_eq!(repo.next_range_commit_desc(), Ok(Selection::Commit(id(2))));
    assert_eq!(repo.next_range_commit_desc(), Ok(Selection::Commit(id(1))));
    assert_eq!(repo.next_range_commit_desc(), Err(SelectError::RangePlayed));
    assert_eq!(repo.range_commit(1), Some(id(2)));
    assert_eq!(repo.range_commit(3), None);
}

#[test]
fn setting_a_range_resets_the_cursor_and_keeps_the_cache() {
    let mut repo = GitRepository::new();
    repo.populate_cache(&linear_walk(3)).unwrap();
    assert_eq!(repo.next_asc_commit(), Ok(Selection::Commit(id(1))));
    repo.set_commit_range(vec![id(8), id(9)]);
    assert_eq!(repo.index(), 0);
    assert!(repo.has_cache());
    assert_eq!(repo.next_range_commit_asc(), Ok(Selection::Commit(id(8))));
    repo.set_commit_range(vec![id(7)]);
    assert_eq!(repo.next_range_commit_asc(), Ok(Selection::Commit(id(7))));
    assert_eq!(repo.cached_commit(0), Some(id(3)));
}

#[test]
fn random_range_commit_is_one_of_the_range() {
    let mut repo = GitRepository::new();
    repo.set_commit_range(vec![id(4), id(5), id(6)]);
    for _ in 0..200 {
        let c = repo.random_range_commit().unwrap();
        assert!(c == id(4) || c == id(5) || c == id(6));
    }
}

#[test]
fn range_without_lower_bound_is_the_whole_walk_oldest_first() {
    let walk = linear_walk(4);
    assert_eq!(commits_in_range(&walk, None), vec![id(1), id(2), id(3), id(4)]);
}

#[test]
fn range_hides_the_ancestors_of_its_lower_bound() {
    let upper = linear_walk(5);
    let lower: Vec<CommitId> = linear_walk(2).iter().map(|c| c.id).collect();
    assert_eq!(commits_in_range(&upper, Some(&lower)), vec![id(3), id(4), id(5)]);
    assert_eq!(commits_in_range(&upper, Some(&Vec::new())), vec![id(1), id(2), id(3), id(4), id(5)]);
}

#[test]
fn range_leaves_out_merges_and_unreadable_commits() {
    let upper = vec![
        walked(6, 1),
        walked(5, 2),
        WalkedCommit { id: id(4), parent_count: None },
        walked(3, 1),
        walked(2, 1),
        walked(1, 0),
    ];
    let lower = vec![id(2), id(1)];
    assert_eq!(commits_in_range(&upper, Some(&lower)), vec![id(3), id(6)]);
}

#[test]
fn range_with_equal_bounds_is_empty() {
    let upper = linear_walk(3);
    let lower: Vec<CommitId> = upper.iter().map(|c| c.id).collect();
    assert_eq!(commits_in_range(&upper, Some(&lower)), Vec::<CommitId>::new());
}

#[test]
fn bounded_range_is_the_open_range_minus_the_lower_range() {
    let upper = linear_walk(9);
    let lower_walk = linear_walk(4);
    let lower_ids: Vec<CommitId> = lower_walk.iter().map(|c| c.id).collect();
    let bounded = commits_in_range(&upper, Some(&lower_ids));
    let open = commits_in_range(&upper, None);
    let below = commits_in_range(&lower_walk, None);
    let expected: Vec<CommitId> = open.into_iter().filter(|c| !below.contains(c)).collect();
    assert_eq!(bounded, expected);
    assert_eq!(bounded, vec![id(5), id(6), id(7), id(8), id(9)]);
}

#[test]
fn reversed_turns_the_order_around() {
    assert_eq!(reversed(&vec![id(1), id(2), id(3)]), vec![id(3), id(2), id(1)]);
    assert_eq!(reversed(&Vec::new()), Vec::<CommitId>::new());
}

#[test]
fn three_dots_are_refused() {
    for expr in ["...", "a...b", "HEAD~5...HEAD", "a..b...c", "....", "a...", "...b"] {
        assert_eq!(parse_commit_range(expr), Err(RangeError::SymmetricDifference));
    }
    assert_eq!(
        RangeError::SymmetricDifference.message(),
        "Symmetric difference operator '...' is not supported. Use '..' instead (e.g., 'HEAD~5..HEAD')"
    );
}

#[test]
fn range_with_both_sides() {
    assert_eq!(
        parse_commit_range("HEAD~5..HEAD"),
        Ok(RangeSpec { start: Some("HEAD~5".to_string()), end: Some("HEAD".to_string()) })
    );
}

#[test]
fn range_with_an_empty_side() {
    assert_eq!(
        parse_commit_range("..main"),
        Ok(RangeSpec { start: None, end: Some("main".to_string()) })
    );
    assert_eq!(
        parse_commit_range("abc123.."),
        Ok(RangeSpec { start: Some("abc123".to_string()), end: None })
    );
    assert_eq!(parse_commit_range(".."), Ok(RangeSpec { start: None, end: None }));
}

#[test]
fn range_without_separator_is_refused() {
    for expr in ["", "HEAD", "a.b", "v1.2.3"] {
        let err = parse_commit_range(expr).unwrap_err();
        assert_eq!(err, RangeError::MissingSeparator { range: expr.to_string() });
    }
    assert_eq!(
        RangeError::MissingSeparator { range: "HEAD".to_string() }.message(),
        "Invalid range format: HEAD. Use formats like 'HEAD~5..HEAD' or 'abc123..'"
    );
}

#[test]
fn range_with_two_separators_is_refused() {
    for expr in ["a..b..c", "..a..", "a..b.c..d"] {
        let err = parse_commit_range(expr).unwrap_err();
        assert_eq!(err, RangeError::TooManySeparators { range: expr.to_string() });
    }
    assert_eq!(
        RangeError::TooManySeparators { range: "a..b..c".to_string() }.message(),
        "Invalid range format: a..b..c"
    );
}

#[test]
fn range_sides_may_hold_single_dots() {
    assert_eq!(
        parse_commit_range("v1.2..v1.3"),
        Ok(RangeSpec { start: Some("v1.2".to_string()), end: Some("v1.3".to_string()) })
    );
}
