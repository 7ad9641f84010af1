use game_night::clock::Timestamp;
use game_night::error::EngineError;
use game_night::forms::{CreatePollOptionRequest, CreatePollRequest, PollWithCreator};
use game_night::models::VotingMode;
use game_night::page::format_poll_for_template;
use game_night::results::PollOptionWithVotes;
use game_night::store::Store;

fn at(secs: i64) -> Timestamp {
    Timestamp::from_secs(secs)
}

fn tally(id: i64, text: &str, vote_count: i64) -> PollOptionWithVotes {
    PollOptionWithVotes { id, text: text.to_string(), is_date: false, date_time: None, vote_count }
}

fn shown_poll(expires_at: Option<Timestamp>) -> PollWithCreator {
    PollWithCreator {
        id: 4,
        title: "Game".to_string(),
        description: Some("d".to_string()),
        creator_id: 2,
        creator_username: "ann".to_string(),
        created_at: at(10),
        expires_at,
    }
}

#[test]
fn page_marks_the_users_votes_and_sums_the_counts() {
    let options = vec![tally(1, "a", 3), tally(2, "b", 0), tally(3, "c", 4)];
    let page = format_poll_for_template(&shown_poll(Some(at(100))), &options, &vec![3, 1], at(50));
    assert_eq!(page.id, 4);
    assert_eq!(page.title, "Game");
    assert_eq!(page.description, Some("d".to_string()));
    assert_eq!(page.creator_id, 2);
    assert_eq!(page.creator_username, "ann");
    assert_eq!(page.created_at, at(10));
    assert_eq!(page.expires_at, Some(at(100)));
    assert!(!page.is_expired);
    assert_eq!(page.total_votes, 7);
    let rows: Vec<(i64, i64, bool)> =
        page.options.iter().map(|o| (o.id, o.vote_count, o.is_voted)).collect();
    assert_eq!(rows, vec![(1, 3, true), (2, 0, false), (3, 4, true)]);
    assert_eq!(page.options[2].text, "c");
}

#[test]
fn page_of_a_poll_without_options() {
    let page = format_poll_for_template(&shown_poll(None), &vec![], &vec![1], at(50));
    assert_eq!(page.total_votes, 0);
    assert_eq!(page.options.len(), 0);
    assert!(!page.is_expired);
}

#[test]
fn page_says_whether_the_poll_has_expired() {
    let options = vec![tally(1, "a", 0)];
    assert!(!format_poll_for_template(&shown_poll(Some(at(100))), &options, &vec![], at(100)).is_expired);
    assert!(format_poll_for_template(&shown_poll(Some(at(100))), &options, &vec![], at(101)).is_expired);
    assert!(!format_poll_for_template(&shown_poll(None), &options, &vec![], at(101)).is_expired);
}

#[test]
fn poll_detail_puts_the_page_together_from_the_store() {
    let mut store = Store::new();
    store.create_user("ann", "h", false, at(1)).unwrap();
    let request = CreatePollRequest {
        title: "Game".to_string(),
        description: None,
        options: vec![
            CreatePollOptionRequest { text: "a".to_string(), datetime_option: None },
            CreatePollOptionRequest { text: "b".to_string(), datetime_option: Some(at(77)) },
        ],
        expires_at: Some(at(100)),
    };
    store.insert_poll(1, &request, at(2)).unwrap();
    store.cast_vote(1, 2, 5, VotingMode::MultiChoice, at(3)).unwrap();
    store.cast_vote(1, 2, 6, VotingMode::MultiChoice, at(4)).unwrap();
    store.cast_vote(1, 1, 6, VotingMode::MultiChoice, at(5)).unwrap();
    let page = store.poll_detail(1, 5, at(200)).unwrap();
    assert_eq!(page.creator_username, "ann");
    assert!(page.is_expired);
    assert_eq!(page.total_votes, 3);
    let rows: Vec<(i64, i64, bool, bool)> =
        page.options.iter().map(|o| (o.id, o.vote_count, o.is_voted, o.is_date)).collect();
    assert_eq!(rows, vec![(1, 1, false, false), (2, 2, true, true)]);
    assert_eq!(store.poll_detail(2, 5, at(200)), Err(EngineError::PollNotFound));
}
