use game_night::clock::Timestamp;
use game_night::forms::{CreatePollOptionRequest, CreatePollRequest};
use game_night::models::{Poll, PollOption, User, Vote, VotingMode};
use game_night::restore::StoreRows;
use game_night::store::Store;

fn at(secs: i64) -> Timestamp {
    Timestamp::from_secs(secs)
}

fn user(id: i64, name: &str) -> User {
    User {
        id,
        username: name.to_string(),
        password_hash: "h".to_string(),
        is_admin: false,
        created_at: at(0),
    }
}

fn poll(id: i64) -> Poll {
    Poll {
        id,
        title: "Game".to_string(),
        description: None,
        created_by: 1,
        created_at: at(0),
        expires_at: None,
        is_active: true,
    }
}

fn option(id: i64, poll_id: i64) -> PollOption {
    PollOption { id, poll_id, text: "x".to_string(), is_date: false, date_time: None }
}

fn vote(id: i64, poll_id: i64, option_id: i64, user_id: i64) -> Vote {
    Vote { id, poll_id, option_id, user_id, created_at: at(0) }
}

fn good_rows() -> StoreRows {
    StoreRows {
        users: vec![user(1, "ann"), user(2, "bob")],
        polls: vec![poll(1), poll(3)],
        options: vec![option(1, 1), option(2, 1), option(5, 3)],
        votes: vec![vote(2, 1, 1, 1), vote(4, 1, 2, 1), vote(6, 3, 5, 2)],
        next_user_id: 3,
        next_poll_id: 4,
        next_option_id: 6,
        next_vote_id: 7,
    }
}

#[test]
fn empty_store_has_no_rows() {
    let rows = Store::new().snapshot();
    assert_eq!(rows.users.len(), 0);
    assert_eq!(rows.polls.len(), 0);
    assert_eq!(rows.options.len(), 0);
    assert_eq!(rows.votes.len(), 0);
    assert_eq!(
        (rows.next_user_id, rows.next_poll_id, rows.next_option_id, rows.next_vote_id),
        (1, 1, 1, 1)
    );
}

#[test]
fn good_rows_make_a_store_that_gives_them_back() {
    let store = Store::from_rows(good_rows()).unwrap();
    assert_eq!(store.snapshot(), good_rows());
    assert_eq!(store.get_results(1, 1).unwrap().total_votes, 2);
}

#[test]
fn snapshot_round_trip_after_operations() {
    let mut store = Store::new();
    store.create_user("ann", "h", false, at(1)).unwrap();
    let request = CreatePollRequest {
        title: "Game".to_string(),
        description: Some("d".to_string()),
        options: vec![
            CreatePollOptionRequest { text: "a".to_string(), datetime_option: Some(at(9)) },
            CreatePollOptionRequest { text: "b".to_string(), datetime_option: None },
        ],
        expires_at: Some(at(100)),
    };
    store.insert_poll(1, &request, at(2)).unwrap();
    store.cast_vote(1, 1, 1, VotingMode::MultiChoice, at(3)).unwrap();
    store.cast_vote(1, 2, 1, VotingMode::MultiChoice, at(4)).unwrap();
    store.cast_vote(1, 1, 1, VotingMode::MultiChoice, at(5)).unwrap();
    let rows = store.snapshot();
    let again = Store::from_rows(store.snapshot()).unwrap();
    assert_eq!(again.snapshot(), rows);
    assert_eq!(rows.next_vote_id, 3);
}

#[test]
fn restored_store_goes_on_counting_ids() {
    let mut store = Store::from_rows(good_rows()).unwrap();
    assert_eq!(store.create_user("cy", "h", false, at(1)).unwrap().id, 3);
    assert_eq!(store.add_poll_option(3, "more", None), Ok(6));
    store.cast_vote(3, 6, 3, VotingMode::SingleChoice, at(2)).unwrap();
    assert_eq!(store.snapshot().votes.last().unwrap().id, 7);
}

#[test]
fn rows_with_ids_out_of_order_are_rejected() {
    let mut rows = good_rows();
    rows.polls = vec![poll(3), poll(1)];
    assert!(Store::from_rows(rows).is_none());
    let mut rows = good_rows();
    rows.users = vec![user(1, "ann"), user(1, "bob")];
    assert!(Store::from_rows(rows).is_none());
    let mut rows = good_rows();
    rows.votes = vec![vote(4, 1, 2, 1), vote(2, 1, 1, 1), vote(6, 3, 5, 2)];
    assert!(Store::from_rows(rows).is_none());
}

#[test]
fn rows_with_ids_outside_their_bounds_are_rejected() {
    let mut rows = good_rows();
    rows.next_option_id = 5;
    assert!(Store::from_rows(rows).is_none());
    let mut rows = good_rows();
    rows.users = vec![user(0, "ann"), user(2, "bob")];
    assert!(Store::from_rows(rows).is_none());
    let mut rows = good_rows();
    rows.users = vec![user(-5, "ann"), user(2, "bob")];
    assert!(Store::from_rows(rows).is_none());
    let mut rows = good_rows();
    rows.next_vote_id = 0;
    rows.votes = vec![];
    assert!(Store::from_rows(rows).is_none());
}

#[test]
fn rows_with_a_name_twice_are_rejected() {
    let mut rows = good_rows();
    rows.users = vec![user(1, "ann"), user(2, "ann")];
    assert!(Store::from_rows(rows).is_none());
}

#[test]
fn rows_with_an_option_of_no_poll_are_rejected() {
    let mut rows = good_rows();
    rows.options = vec![option(1, 1), option(2, 2), option(5, 3)];
    rows.votes = vec![];
    assert!(Store::from_rows(rows).is_none());
}

#[test]
fn rows_with_a_vote_astray_are_rejected() {
    let mut rows = good_rows();
    rows.votes = vec![vote(2, 1, 4, 1)];
    assert!(Store::from_rows(rows).is_none());
    let mut rows = good_rows();
    rows.votes = vec![vote(2, 3, 1, 1)];
    assert!(Store::from_rows(rows).is_none());
}

#[test]
fn rows_with_two_votes_of_a_user_on_an_option_are_rejected() {
    let mut rows = good_rows();
    rows.votes = vec![vote(2, 1, 1, 1), vote(4, 1, 1, 1)];
    assert!(Store::from_rows(rows).is_none());
    let mut rows = good_rows();
    rows.votes = vec![vote(2, 1, 1, 1), vote(4, 1, 1, 2)];
    assert!(Store::from_rows(rows).is_some());
}

#[test]
fn votes_of_users_unknown_to_the_store_are_taken() {
    let mut rows = good_rows();
    rows.votes = vec![vote(2, 1, 1, 77)];
    assert!(Store::from_rows(rows).is_some());
}
