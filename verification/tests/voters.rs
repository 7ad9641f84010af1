use game_night::clock::Timestamp;
use game_night::error::EngineError;
use game_night::forms::{CreatePollOptionRequest, CreatePollRequest};
use game_night::models::{UserInfo, VotingMode};
use game_night::store::Store;

fn at(secs: i64) -> Timestamp {
    Timestamp::from_secs(secs)
}

fn identity(id: i64, is_admin: bool) -> UserInfo {
    UserInfo { id, username: format!("user{}", id), created_at: at(0), is_admin }
}

fn request(title: &str, options: &[&str]) -> CreatePollRequest {
    CreatePollRequest {
        title: title.to_string(),
        description: None,
        options: options
            .iter()
            .map(|text| CreatePollOptionRequest { text: text.to_string(), datetime_option: None })
            .collect(),
        expires_at: None,
    }
}

/// Users 1 "mike", 2 "ann", 3 "zoe"; poll 1 by mike with options 1, 2, 3;
/// poll 2 by ann with options 4, 5. Votes, in the order of their casting
/// but with times out of order: zoe on 1, ann on 1, mike on 2, ann on 3,
/// a stranger (id 9) on 1, ann on 4.
fn voted() -> Store {
    let mut store = Store::new();
    store.create_user("mike", "h", false, at(1)).unwrap();
    store.create_user("ann", "h", false, at(1)).unwrap();
    store.create_user("zoe", "h", false, at(1)).unwrap();
    store.insert_poll(1, &request("One", &["a", "b", "c"]), at(2)).unwrap();
    store.insert_poll(2, &request("Two", &["x", "y"]), at(3)).unwrap();
    store.cast_vote(1, 1, 3, VotingMode::MultiChoice, at(50)).unwrap();
    store.cast_vote(1, 1, 2, VotingMode::MultiChoice, at(40)).unwrap();
    store.cast_vote(1, 2, 1, VotingMode::MultiChoice, at(60)).unwrap();
    store.cast_vote(1, 3, 2, VotingMode::MultiChoice, at(70)).unwrap();
    store.cast_vote(1, 1, 9, VotingMode::MultiChoice, at(10)).unwrap();
    store.cast_vote(2, 4, 2, VotingMode::MultiChoice, at(80)).unwrap();
    store
}

#[test]
fn voters_of_an_option_come_in_the_order_of_their_votes() {
    let store = voted();
    let names: Vec<String> =
        store.get_voters_for_option(1).into_iter().map(|u| u.username).collect();
    assert_eq!(names, vec!["ann", "zoe"]);
    let names: Vec<String> =
        store.get_voters_for_option(2).into_iter().map(|u| u.username).collect();
    assert_eq!(names, vec!["mike"]);
    assert_eq!(store.get_voters_for_option(5).len(), 0);
    assert_eq!(store.get_voters_for_option(77).len(), 0);
}

#[test]
fn voters_of_a_poll_come_by_name_with_their_choices() {
    let store = voted();
    let rows: Vec<(String, Vec<i64>)> =
        store.get_poll_voters(1).into_iter().map(|(u, picks)| (u.username, picks)).collect();
    assert_eq!(
        rows,
        vec![
            ("ann".to_string(), vec![1, 3]),
            ("mike".to_string(), vec![2]),
            ("zoe".to_string(), vec![1]),
        ]
    );
    let rows: Vec<(String, Vec<i64>)> =
        store.get_poll_voters(2).into_iter().map(|(u, picks)| (u.username, picks)).collect();
    assert_eq!(rows, vec![("ann".to_string(), vec![4])]);
    assert_eq!(store.get_poll_voters(3).len(), 0);
}

#[test]
fn choices_of_a_user_in_a_poll() {
    let store = voted();
    assert_eq!(store.choices_of(1, 2), vec![1, 3]);
    assert_eq!(store.choices_of(2, 2), vec![4]);
    assert_eq!(store.choices_of(2, 1), Vec::<i64>::new());
}

#[test]
fn voting_details_of_a_poll() {
    let store = voted();
    let details = store.get_poll_voting_details(1).unwrap();
    assert_eq!(details.poll.id, 1);
    assert_eq!(details.poll.creator_username, "mike");
    assert_eq!(details.total_votes, 4);
    assert_eq!(details.total_voters, 3);
    assert_eq!(details.options_with_voters.len(), 3);

    let first = &details.options_with_voters[0];
    assert_eq!(first.id, 1);
    assert_eq!(first.poll_id, 1);
    assert_eq!(first.text, "a");
    assert_eq!(first.vote_count, 2);
    let voters: Vec<(i64, String, i64)> =
        first.voters.iter().map(|v| (v.user_id, v.username.clone(), v.created_at.secs)).collect();
    assert_eq!(voters, vec![(2, "ann".to_string(), 40), (3, "zoe".to_string(), 50)]);
    assert_eq!(first.voters[0].option_id, 1);
    assert_eq!(first.voters[0].vote_id, 2);

    assert_eq!(details.options_with_voters[1].vote_count, 1);
    assert_eq!(details.options_with_voters[1].voters[0].username, "mike");
    assert_eq!(details.options_with_voters[2].vote_count, 1);
    let sum: i64 = details.options_with_voters.iter().map(|o| o.vote_count).sum();
    assert_eq!(sum, details.total_votes);
}

#[test]
fn voting_details_of_a_poll_without_votes() {
    let mut store = voted();
    store.insert_poll(3, &request("Three", &["p", "q"]), at(90)).unwrap();
    let details = store.get_poll_voting_details(3).unwrap();
    assert_eq!(details.total_votes, 0);
    assert_eq!(details.total_voters, 0);
    assert_eq!(details.options_with_voters.len(), 2);
    assert!(details.options_with_voters.iter().all(|o| o.vote_count == 0 && o.voters.is_empty()));
}

#[test]
fn voting_details_of_a_missing_poll_are_not_found() {
    let store = voted();
    assert_eq!(store.get_poll_voting_details(9), Err(EngineError::PollNotFound));
}

#[test]
fn voters_are_private_to_creator_and_admins() {
    let store = voted();
    assert!(store.poll_voters(1, &identity(1, false)).is_ok());
    assert!(store.poll_voters(1, &identity(3, true)).is_ok());
    assert_eq!(store.poll_voters(1, &identity(2, false)), Err(EngineError::Forbidden));
    assert_eq!(store.poll_voters(2, &identity(1, false)), Err(EngineError::Forbidden));
    assert!(store.poll_voters(2, &identity(2, false)).is_ok());
    assert_eq!(store.poll_voters(9, &identity(3, true)), Err(EngineError::PollNotFound));
    assert_eq!(store.poll_voters(9, &identity(2, false)), Err(EngineError::PollNotFound));
}
