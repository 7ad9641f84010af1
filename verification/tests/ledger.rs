use game_night::clock::Timestamp;
use game_night::error::EngineError;
use game_night::forms::{
    CreatePollOptionRequest, CreatePollRequest, UpdatePollRequest, VoteForm, VoteRequest,
};
use game_night::models::{UserInfo, VoteOutcome, VotingMode};
use game_night::restore::StoreRows;
use game_night::store::Store;

fn at(secs: i64) -> Timestamp {
    Timestamp::from_secs(secs)
}

fn identity(id: i64, is_admin: bool) -> UserInfo {
    UserInfo { id, username: format!("user{}", id), created_at: at(0), is_admin }
}

fn request(title: &str, options: &[&str], expires_at: Option<Timestamp>) -> CreatePollRequest {
    CreatePollRequest {
        title: title.to_string(),
        description: None,
        options: options
            .iter()
            .map(|text| CreatePollOptionRequest { text: text.to_string(), datetime_option: None })
            .collect(),
        expires_at,
    }
}

/// A store with poll 1 (options 1, 2, 3; expires at 1000) and poll 2
/// (options 4, 5; never expires), both created by user 1.
fn two_polls() -> Store {
    let mut store = Store::new();
    store.insert_poll(1, &request("First", &["a", "b", "c"], Some(at(1000))), at(10)).unwrap();
    store.insert_poll(1, &request("Second", &["x", "y"], None), at(20)).unwrap();
    store
}

fn count(store: &Store, poll_id: i64, option_id: i64) -> i64 {
    let results = store.get_results(poll_id, 0).unwrap();
    results.options.iter().find(|o| o.id == option_id).unwrap().vote_count
}

#[test]
fn cast_on_missing_poll_is_not_found() {
    let mut store = Store::new();
    let r = store.cast_vote(1, 1, 2, VotingMode::SingleChoice, at(10));
    assert_eq!(r, Err(EngineError::PollNotFound));
    let r = store.cast_vote(1, 1, 2, VotingMode::MultiChoice, at(10));
    assert_eq!(r, Err(EngineError::PollNotFound));
}

#[test]
fn cast_on_missing_option_is_not_found() {
    let mut store = two_polls();
    assert_eq!(
        store.cast_vote(1, 99, 2, VotingMode::SingleChoice, at(50)),
        Err(EngineError::OptionNotFound)
    );
}

#[test]
fn cast_on_option_of_another_poll_is_not_found() {
    let mut store = two_polls();
    assert_eq!(
        store.cast_vote(1, 4, 2, VotingMode::SingleChoice, at(50)),
        Err(EngineError::OptionNotFound)
    );
    assert_eq!(
        store.cast_vote(2, 1, 2, VotingMode::MultiChoice, at(50)),
        Err(EngineError::OptionNotFound)
    );
    assert_eq!(store.snapshot().votes.len(), 0);
}

#[test]
fn cast_after_expiry_is_closed() {
    let mut store = two_polls();
    assert_eq!(
        store.cast_vote(1, 1, 2, VotingMode::SingleChoice, at(1001)),
        Err(EngineError::PollClosed)
    );
    assert_eq!(
        store.cast_vote(1, 1, 2, VotingMode::MultiChoice, Timestamp::new(1000, 1)),
        Err(EngineError::PollClosed)
    );
}

#[test]
fn cast_at_the_instant_of_expiry_is_taken() {
    let mut store = two_polls();
    assert_eq!(
        store.cast_vote(1, 1, 2, VotingMode::SingleChoice, at(1000)),
        Ok(VoteOutcome::Recorded)
    );
}

#[test]
fn cast_on_inactive_poll_is_closed() {
    let mut store = two_polls();
    let patch = UpdatePollRequest {
        title: "Second".to_string(),
        description: None,
        expires_at: None,
        is_active: false,
    };
    store.update_poll(2, &identity(1, false), &patch).unwrap();
    assert_eq!(
        store.cast_vote(2, 4, 2, VotingMode::SingleChoice, at(50)),
        Err(EngineError::PollClosed)
    );
}

#[test]
fn closed_is_reported_before_a_wrong_option() {
    let mut store = two_polls();
    assert_eq!(
        store.cast_vote(1, 99, 2, VotingMode::SingleChoice, at(2000)),
        Err(EngineError::PollClosed)
    );
}

#[test]
fn single_choice_records_one_vote() {
    let mut store = two_polls();
    assert_eq!(
        store.cast_vote(1, 2, 7, VotingMode::SingleChoice, at(50)),
        Ok(VoteOutcome::Recorded)
    );
    let votes = store.snapshot().votes;
    assert_eq!(votes.len(), 1);
    assert_eq!(votes[0].id, 1);
    assert_eq!(votes[0].poll_id, 1);
    assert_eq!(votes[0].option_id, 2);
    assert_eq!(votes[0].user_id, 7);
    assert_eq!(votes[0].created_at, at(50));
}

#[test]
fn single_choice_replaces_the_earlier_vote() {
    let mut store = two_polls();
    store.cast_vote(1, 1, 7, VotingMode::SingleChoice, at(50)).unwrap();
    store.cast_vote(1, 3, 7, VotingMode::SingleChoice, at(60)).unwrap();
    let votes = store.snapshot().votes;
    assert_eq!(votes.len(), 1);
    assert_eq!(votes[0].option_id, 3);
    assert_eq!(votes[0].id, 2);
    assert_eq!(count(&store, 1, 1), 0);
    assert_eq!(count(&store, 1, 3), 1);
    assert_eq!(store.get_user_vote(1, 7), Some(3));
}

#[test]
fn single_choice_on_the_same_option_keeps_one_vote() {
    let mut store = two_polls();
    for k in 0..5 {
        assert_eq!(
            store.cast_vote(1, 2, 7, VotingMode::SingleChoice, at(50 + k)),
            Ok(VoteOutcome::Recorded)
        );
        assert_eq!(store.get_user_votes(1, 7), vec![2]);
    }
    assert_eq!(store.snapshot().votes.len(), 1);
}

#[test]
fn single_choice_leaves_other_users_and_polls_alone() {
    let mut store = two_polls();
    store.cast_vote(1, 1, 7, VotingMode::SingleChoice, at(50)).unwrap();
    store.cast_vote(1, 1, 8, VotingMode::SingleChoice, at(51)).unwrap();
    store.cast_vote(2, 4, 7, VotingMode::SingleChoice, at(52)).unwrap();
    store.cast_vote(1, 2, 7, VotingMode::SingleChoice, at(53)).unwrap();
    assert_eq!(store.get_user_vote(1, 7), Some(2));
    assert_eq!(store.get_user_vote(1, 8), Some(1));
    assert_eq!(store.get_user_vote(2, 7), Some(4));
    assert_eq!(store.snapshot().votes.len(), 3);
}

#[test]
fn single_choice_run_ends_on_the_last_successful_target() {
    let mut store = two_polls();
    let targets = [1, 3, 99, 2, 4, 3];
    let mut last = None;
    for (k, option_id) in targets.iter().enumerate() {
        let r = store.cast_vote(1, *option_id, 7, VotingMode::SingleChoice, at(100 + k as i64));
        if r.is_ok() {
            last = Some(*option_id);
        }
        assert!(store.get_user_votes(1, 7).len() <= 1);
        assert_eq!(store.get_user_vote(1, 7), last);
    }
    assert_eq!(last, Some(3));
}

#[test]
fn failed_cast_changes_nothing() {
    let mut store = two_polls();
    store.cast_vote(1, 1, 7, VotingMode::SingleChoice, at(50)).unwrap();
    let before = store.snapshot();
    assert!(store.cast_vote(1, 2, 7, VotingMode::SingleChoice, at(5000)).is_err());
    assert!(store.cast_vote(1, 5, 7, VotingMode::MultiChoice, at(60)).is_err());
    assert!(store.cast_vote(3, 1, 7, VotingMode::MultiChoice, at(60)).is_err());
    assert_eq!(store.snapshot(), before);
}

#[test]
fn toggle_records_then_removes() {
    let mut store = two_polls();
    assert_eq!(store.cast_vote(2, 4, 7, VotingMode::MultiChoice, at(50)), Ok(VoteOutcome::Recorded));
    assert!(store.has_vote_on(4, 7));
    assert_eq!(store.cast_vote(2, 4, 7, VotingMode::MultiChoice, at(51)), Ok(VoteOutcome::Removed));
    assert!(!store.has_vote_on(4, 7));
    assert_eq!(store.snapshot().votes.len(), 0);
}

#[test]
fn toggle_presence_follows_the_parity_of_the_casts() {
    let mut store = two_polls();
    for k in 1..=9 {
        store.cast_vote(2, 5, 7, VotingMode::MultiChoice, at(50 + k)).unwrap();
        assert_eq!(store.has_vote_on(5, 7), k % 2 == 1);
    }
}

#[test]
fn toggle_lets_a_user_hold_several_options() {
    let mut store = two_polls();
    store.cast_vote(1, 1, 7, VotingMode::MultiChoice, at(50)).unwrap();
    store.cast_vote(1, 3, 7, VotingMode::MultiChoice, at(51)).unwrap();
    store.cast_vote(1, 2, 7, VotingMode::MultiChoice, at(52)).unwrap();
    assert_eq!(store.get_user_votes(1, 7), vec![1, 3, 2]);
    store.cast_vote(1, 3, 7, VotingMode::MultiChoice, at(53)).unwrap();
    assert_eq!(store.get_user_votes(1, 7), vec![1, 2]);
    assert_eq!(store.get_user_vote(1, 7), Some(1));
}

#[test]
fn toggle_leaves_other_users_alone() {
    let mut store = two_polls();
    store.cast_vote(1, 1, 7, VotingMode::MultiChoice, at(50)).unwrap();
    store.cast_vote(1, 1, 8, VotingMode::MultiChoice, at(51)).unwrap();
    store.cast_vote(1, 1, 7, VotingMode::MultiChoice, at(52)).unwrap();
    assert!(!store.has_vote_on(1, 7));
    assert!(store.has_vote_on(1, 8));
    assert_eq!(count(&store, 1, 1), 1);
}

#[test]
fn failed_toggles_do_not_count_for_the_parity() {
    let mut store = two_polls();
    store.cast_vote(1, 1, 7, VotingMode::MultiChoice, at(50)).unwrap();
    assert!(store.cast_vote(1, 1, 7, VotingMode::MultiChoice, at(5000)).is_err());
    assert!(store.has_vote_on(1, 7));
}

#[test]
fn add_vote_is_a_single_choice_cast() {
    let mut store = two_polls();
    let user = identity(7, false);
    assert_eq!(store.add_vote(1, &user, &VoteRequest { option_id: 1 }, at(50)), Ok(VoteOutcome::Recorded));
    assert_eq!(store.add_vote(1, &user, &VoteRequest { option_id: 2 }, at(51)), Ok(VoteOutcome::Recorded));
    assert_eq!(store.get_user_votes(1, 7), vec![2]);
    assert_eq!(
        store.add_vote(1, &user, &VoteRequest { option_id: 5 }, at(52)),
        Err(EngineError::OptionNotFound)
    );
}

#[test]
fn vote_replaces_the_vote_of_the_user_in_the_poll() {
    let mut store = two_polls();
    assert_eq!(store.vote(1, 1, 7, at(50)), Ok(()));
    assert_eq!(store.vote(1, 3, 7, at(51)), Ok(()));
    assert_eq!(store.get_user_votes(1, 7), vec![3]);
    assert_eq!(store.vote(1, 4, 7, at(52)), Err(EngineError::OptionNotFound));
    assert_eq!(store.vote(9, 1, 7, at(52)), Err(EngineError::PollNotFound));
    assert_eq!(store.vote(1, 1, 7, at(5000)), Err(EngineError::PollClosed));
    assert_eq!(store.get_user_votes(1, 7), vec![3]);
}

#[test]
fn vote_on_poll_is_a_toggle() {
    let mut store = two_polls();
    assert_eq!(store.vote_on_poll(1, 7, &VoteForm { option_id: 1 }, at(50)), Ok(VoteOutcome::Recorded));
    assert_eq!(store.vote_on_poll(1, 7, &VoteForm { option_id: 2 }, at(51)), Ok(VoteOutcome::Recorded));
    assert_eq!(store.vote_on_poll(1, 7, &VoteForm { option_id: 1 }, at(52)), Ok(VoteOutcome::Removed));
    assert_eq!(store.get_user_votes(1, 7), vec![2]);
    assert_eq!(
        store.vote_on_poll(1, 7, &VoteForm { option_id: 1 }, at(1001)),
        Err(EngineError::PollClosed)
    );
}

#[test]
fn vote_ids_are_never_used_twice() {
    let mut store = two_polls();
    store.cast_vote(1, 1, 7, VotingMode::MultiChoice, at(50)).unwrap();
    store.cast_vote(1, 1, 7, VotingMode::MultiChoice, at(51)).unwrap();
    store.cast_vote(1, 1, 7, VotingMode::MultiChoice, at(52)).unwrap();
    let rows = store.snapshot();
    assert_eq!(rows.votes.len(), 1);
    assert_eq!(rows.votes[0].id, 2);
    assert_eq!(rows.next_vote_id, 3);
}

#[test]
fn cast_fails_when_vote_ids_have_run_out() {
    let mut rows: StoreRows = two_polls().snapshot();
    rows.next_vote_id = i64::MAX;
    let mut store = Store::from_rows(rows).unwrap();
    assert_eq!(
        store.cast_vote(1, 1, 7, VotingMode::SingleChoice, at(50)),
        Err(EngineError::StoreFull)
    );
    assert_eq!(
        store.cast_vote(1, 1, 7, VotingMode::MultiChoice, at(50)),
        Err(EngineError::StoreFull)
    );
    assert_eq!(store.snapshot().votes.len(), 0);
}
