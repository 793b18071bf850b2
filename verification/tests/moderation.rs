use community_moderation::strutil::{contains_str, greet};
use community_moderation::{ModerationError, State, Vote};

/// Builds a store in which `user` is a known user with reputation 10,
/// earned as the sole reporter of a removed piece of content. The store
/// holds no content afterwards.
fn store_with_known_user(user: &str) -> State {
    let mut s = State::new();
    let id = s.submit_content("seed spam seed".to_string(), "author".to_string(), 1);
    assert_eq!(id, 0);
    s.propose_guideline("spam".to_string());
    s.report_content(0, "looks bad".to_string(), user.to_string(), 2);
    for _ in 0..6 {
        s.vote(0, Vote::Remove, &"someone".to_string());
    }
    s.moderate_content(0);
    assert!(s.get_content(0).is_none());
    assert_eq!(s.get_reputation(&user.to_string()), Some(10));
    s
}

#[test]
fn submit_assigns_sequential_ids() {
    let mut s = State::new();
    let a = s.submit_content("first".to_string(), "alice".to_string(), 10);
    let b = s.submit_content("second".to_string(), "bob".to_string(), 11);
    assert_eq!(a, 0);
    assert_eq!(b, 1);
    let c = s.get_content(1).unwrap();
    assert_eq!(c.id, 1);
    assert_eq!(c.content, "second");
    assert_eq!(c.author, "bob");
    assert_eq!(c.timestamp, 11);
    assert!(s.get_content(2).is_none());
}

#[test]
fn moderate_removes_matching_content_and_credits_reporters() {
    let mut s = State::new();
    let id = s.submit_content("no spam links here".to_string(), "alice".to_string(), 1);
    assert_eq!(id, 0);
    s.propose_guideline("spam".to_string());
    s.report_content(0, "spammy".to_string(), "rita".to_string(), 2);
    s.report_content(0, "shady".to_string(), "remy".to_string(), 3);
    for _ in 0..6 {
        s.vote(0, Vote::Remove, &"watcher".to_string());
    }
    s.moderate_content(0);
    assert!(s.get_content(0).is_none());
    assert_eq!(s.get_reputation(&"rita".to_string()), Some(10));
    assert_eq!(s.get_reputation(&"remy".to_string()), Some(10));
    // Reports are historical and survive the removal.
    assert_eq!(s.get_reports(0).len(), 2);
}

#[test]
fn moderate_credits_once_per_report() {
    let mut s = State::new();
    s.submit_content("pure spam".to_string(), "alice".to_string(), 1);
    s.propose_guideline("spam".to_string());
    s.report_content(0, "first report".to_string(), "rita".to_string(), 2);
    s.report_content(0, "second report".to_string(), "rita".to_string(), 3);
    for _ in 0..6 {
        s.vote(0, Vote::Remove, &"watcher".to_string());
    }
    s.moderate_content(0);
    assert_eq!(s.get_reputation(&"rita".to_string()), Some(20));
}

#[test]
fn moderate_below_threshold_leaves_content() {
    let mut s = State::new();
    s.submit_content("pure spam".to_string(), "alice".to_string(), 1);
    s.propose_guideline("spam".to_string());
    for _ in 0..5 {
        s.vote(0, Vote::Remove, &"watcher".to_string());
    }
    s.moderate_content(0);
    assert!(s.get_content(0).is_some());
}

#[test]
fn moderate_counts_votes_regardless_of_direction() {
    let mut s = State::new();
    s.submit_content("pure spam".to_string(), "alice".to_string(), 1);
    s.propose_guideline("spam".to_string());
    for _ in 0..3 {
        s.vote(0, Vote::Remove, &"watcher".to_string());
        s.vote(0, Vote::Keep, &"fan".to_string());
    }
    s.moderate_content(0);
    assert!(s.get_content(0).is_none());
}

#[test]
fn moderate_without_matching_guideline_leaves_content() {
    let mut s = State::new();
    s.submit_content("a perfectly fine post".to_string(), "alice".to_string(), 1);
    s.propose_guideline("spam".to_string());
    s.report_content(0, "disliked it".to_string(), "rita".to_string(), 2);
    for _ in 0..9 {
        s.vote(0, Vote::Remove, &"watcher".to_string());
    }
    s.moderate_content(0);
    assert!(s.get_content(0).is_some());
    // No removal, so no reporter credit either.
    assert_eq!(s.get_reputation(&"rita".to_string()), None);
}

#[test]
fn moderate_is_idempotent_after_removal() {
    let mut s = State::new();
    s.submit_content("pure spam".to_string(), "alice".to_string(), 1);
    s.propose_guideline("spam".to_string());
    s.report_content(0, "spammy".to_string(), "rita".to_string(), 2);
    for _ in 0..6 {
        s.vote(0, Vote::Remove, &"watcher".to_string());
    }
    s.moderate_content(0);
    let rep_after_first = s.get_reputation(&"rita".to_string());
    s.moderate_content(0);
    assert!(s.get_content(0).is_none());
    assert_eq!(s.get_reputation(&"rita".to_string()), rep_after_first);
    assert_eq!(s.get_reports(0).len(), 1);
    assert_eq!(s.get_guidelines().len(), 1);
}

#[test]
fn empty_rule_matches_any_content() {
    let mut s = State::new();
    s.submit_content("anything at all".to_string(), "alice".to_string(), 1);
    s.propose_guideline(String::new());
    for _ in 0..6 {
        s.vote(0, Vote::Remove, &"watcher".to_string());
    }
    s.moderate_content(0);
    assert!(s.get_content(0).is_none());
}

#[test]
fn vote_on_absent_content_rewards_known_voter() {
    let mut s = store_with_known_user("vera");
    s.vote(99, Vote::Remove, &"vera".to_string());
    assert_eq!(s.get_reputation(&"vera".to_string()), Some(20));
}

#[test]
fn vote_on_present_content_penalizes_known_voter() {
    let mut s = store_with_known_user("vera");
    // The seed content was removed, so the next id is the store size
    // again: 0.
    let id = s.submit_content("harmless".to_string(), "alice".to_string(), 5);
    assert_eq!(id, 0);
    s.vote(id, Vote::Remove, &"vera".to_string());
    assert_eq!(s.get_reputation(&"vera".to_string()), Some(5));
    s.vote(id, Vote::Remove, &"vera".to_string());
    assert_eq!(s.get_reputation(&"vera".to_string()), Some(0));
    // Saturating: reputation never goes below zero.
    s.vote(id, Vote::Remove, &"vera".to_string());
    assert_eq!(s.get_reputation(&"vera".to_string()), Some(0));
}

#[test]
fn vote_by_unknown_voter_registers_no_user() {
    let mut s = State::new();
    s.vote(0, Vote::Keep, &"ghost".to_string());
    assert_eq!(s.get_reputation(&"ghost".to_string()), None);
}

#[test]
fn guideline_vote_out_of_range_fails_and_changes_nothing() {
    let mut s = State::new();
    s.propose_guideline("spam".to_string());
    let r = s.vote_guideline(5, true, &"vera".to_string());
    assert_eq!(r, Err(ModerationError::IndexOutOfRange));
    let gs = s.get_guidelines();
    assert_eq!(gs.len(), 1);
    assert_eq!(gs[0].rule, "spam");
    assert_eq!(gs[0].votes, 0);
    assert_eq!(gs[0].weighted_votes, 0);
}

#[test]
fn guideline_vote_weights_by_reputation_with_default_one() {
    let mut s = store_with_known_user("vera");
    s.propose_guideline("be kind".to_string());
    // "vera" has reputation 10; an unknown caller carries weight 1.
    assert_eq!(s.vote_guideline(1, true, &"vera".to_string()), Ok(()));
    assert_eq!(s.vote_guideline(1, false, &"stranger".to_string()), Ok(()));
    let gs = s.get_guidelines();
    assert_eq!(gs[1].rule, "be kind");
    assert_eq!(gs[1].votes, 2);
    assert_eq!(gs[1].weighted_votes, 9);
}

#[test]
fn guideline_vote_count_grows_on_either_direction() {
    let mut s = State::new();
    s.propose_guideline("no links".to_string());
    assert_eq!(s.vote_guideline(0, false, &"a".to_string()), Ok(()));
    assert_eq!(s.vote_guideline(0, false, &"b".to_string()), Ok(()));
    let gs = s.get_guidelines();
    assert_eq!(gs[0].votes, 2);
    assert_eq!(gs[0].weighted_votes, -2);
}

#[test]
fn update_reputation_clamps_at_zero() {
    let mut s = store_with_known_user("vera");
    s.update_reputation(&"vera".to_string(), -100);
    assert_eq!(s.get_reputation(&"vera".to_string()), Some(0));
    s.update_reputation(&"vera".to_string(), 7);
    assert_eq!(s.get_reputation(&"vera".to_string()), Some(7));
    // Unknown users are not created by a direct adjustment.
    s.update_reputation(&"nobody".to_string(), 5);
    assert_eq!(s.get_reputation(&"nobody".to_string()), None);
}

#[test]
fn get_reports_filters_by_content_id() {
    let mut s = State::new();
    s.report_content(3, "one".to_string(), "rita".to_string(), 1);
    s.report_content(4, "two".to_string(), "remy".to_string(), 2);
    s.report_content(3, "three".to_string(), "remy".to_string(), 3);
    let r3 = s.get_reports(3);
    assert_eq!(r3.len(), 2);
    assert_eq!(r3[0].reason, "one");
    assert_eq!(r3[1].reason, "three");
    assert!(s.get_reports(9).is_empty());
}

#[test]
fn contains_str_finds_substrings() {
    assert!(contains_str("no spam links here", "spam"));
    assert!(contains_str("abc", ""));
    assert!(contains_str("", ""));
    assert!(!contains_str("", "a"));
    assert!(!contains_str("abc", "abcd"));
    assert!(contains_str("abcd", "abcd"));
    assert!(!contains_str("spa m", "spam"));
}

#[test]
fn greet_formats_name() {
    assert_eq!(greet("World"), "Hello, World!");
}
