use game_night::clock::Timestamp;
use game_night::error::EngineError;
use game_night::forms::{NewPollForm, VoteRequest};
use game_night::models::{UserInfo, VoteOutcome, VotingMode};
use game_night::store::Store;

fn at(secs: i64) -> Timestamp {
    Timestamp::from_secs(secs)
}

fn percentage(count: i64, total: i64) -> f64 {
    if total > 0 {
        (count as f64 / total as f64) * 100.0
    } else {
        0.0
    }
}

#[test]
fn board_game_night() {
    // 2030-01-01T00:00:00Z
    let now = at(1893456000);
    let mut store = Store::new();
    let a = store.create_user("a", "hash-a", false, now).unwrap();
    let b = store.create_user("b", "hash-b", false, now).unwrap();
    assert_eq!(a.id, 1);
    assert_eq!(b.id, 2);

    let form = NewPollForm {
        title: "Board Game Night".to_string(),
        description: None,
        expires_at: "2030-01-01T01:00".to_string(),
        options: "Catan, Ticket to Ride".to_string(),
    };
    let poll_id = store.create_poll(&form, a.id, now).unwrap();
    let poll = store.get_poll(poll_id).unwrap();
    assert!(poll.is_active);
    assert!(poll.is_active(&now));
    assert_eq!(poll.expires_at, Some(at(1893456000 + 3600)));
    let options = store.get_poll_options(poll_id);
    assert_eq!(options.len(), 2);
    assert_eq!(options[0].text, "Catan");
    assert_eq!(options[1].text, "Ticket to Ride");
    let catan = options[0].id;
    let ticket = options[1].id;

    let voter = UserInfo::from(b);
    assert_eq!(
        store.add_vote(poll_id, &voter, &VoteRequest { option_id: catan }, at(1893456060)),
        Ok(VoteOutcome::Recorded)
    );
    let results = store.get_results(poll_id, voter.id).unwrap();
    assert_eq!(results.total_votes, 1);
    assert_eq!(results.options[0].vote_count, 1);
    assert_eq!(results.options[1].vote_count, 0);
    assert_eq!(percentage(results.options[0].vote_count, results.total_votes), 100.0);
    assert_eq!(percentage(results.options[1].vote_count, results.total_votes), 0.0);
    assert_eq!(results.user_vote, Some(catan));

    assert_eq!(
        store.add_vote(poll_id, &voter, &VoteRequest { option_id: ticket }, at(1893456120)),
        Ok(VoteOutcome::Recorded)
    );
    let results = store.get_results(poll_id, voter.id).unwrap();
    assert_eq!(results.total_votes, 1);
    assert_eq!(results.options[0].vote_count, 0);
    assert_eq!(results.options[1].vote_count, 1);
    assert_eq!(percentage(results.options[0].vote_count, results.total_votes), 0.0);
    assert_eq!(percentage(results.options[1].vote_count, results.total_votes), 100.0);
    assert_eq!(results.user_vote, Some(ticket));
}

#[test]
fn expired_poll_takes_no_votes_but_shows_its_results() {
    let mut store = Store::new();
    let form = NewPollForm {
        title: "Last week".to_string(),
        description: None,
        expires_at: "2030-01-01T01:00".to_string(),
        options: "Chess, Go".to_string(),
    };
    let poll_id = store.create_poll(&form, 1, at(1893456000)).unwrap();
    store.cast_vote(poll_id, 1, 2, VotingMode::SingleChoice, at(1893456100)).unwrap();
    store.cast_vote(poll_id, 2, 3, VotingMode::SingleChoice, at(1893456200)).unwrap();

    let later = at(1893456000 + 7200);
    for option in [1, 2, 3] {
        for mode in [VotingMode::SingleChoice, VotingMode::MultiChoice] {
            for user in [2, 3, 4] {
                assert_eq!(
                    store.cast_vote(poll_id, option, user, mode, later),
                    Err(EngineError::PollClosed)
                );
            }
        }
    }
    let results = store.get_results(poll_id, 2).unwrap();
    assert_eq!(results.total_votes, 2);
    assert_eq!(results.options[0].vote_count, 1);
    assert_eq!(results.options[1].vote_count, 1);
    assert_eq!(results.user_vote, Some(1));

    store.update_poll_statuses(later);
    let results = store.get_results(poll_id, 3).unwrap();
    assert!(!results.poll.is_active);
    assert_eq!(results.total_votes, 2);
    assert_eq!(results.user_vote, Some(2));
}
