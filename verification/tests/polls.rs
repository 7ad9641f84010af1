use game_night::clock::Timestamp;
use game_night::error::EngineError;
use game_night::forms::{
    CreatePollOptionRequest, CreatePollRequest, NewPollForm, UpdatePollRequest,
};
use game_night::models::{UserInfo, VotingMode};
use game_night::create::{read_option, read_poll_form, MIN_OPTIONS};
use game_night::store::Store;

fn at(secs: i64) -> Timestamp {
    Timestamp::from_secs(secs)
}

fn identity(id: i64, is_admin: bool) -> UserInfo {
    UserInfo { id, username: format!("user{}", id), created_at: at(0), is_admin }
}

fn request(title: &str, options: &[&str], expires_at: Option<Timestamp>) -> CreatePollRequest {
    CreatePollRequest {
        title: title.to_string(),
        description: Some("which one?".to_string()),
        options: options
            .iter()
            .map(|text| CreatePollOptionRequest { text: text.to_string(), datetime_option: None })
            .collect(),
        expires_at,
    }
}

fn form(title: &str, expires_at: &str, options: &str) -> NewPollForm {
    NewPollForm {
        title: title.to_string(),
        description: None,
        expires_at: expires_at.to_string(),
        options: options.to_string(),
    }
}

fn patch(title: &str, expires_at: Option<Timestamp>, is_active: bool) -> UpdatePollRequest {
    UpdatePollRequest {
        title: title.to_string(),
        description: Some("changed".to_string()),
        expires_at,
        is_active,
    }
}

#[test]
fn a_poll_needs_two_options() {
    assert_eq!(MIN_OPTIONS, 2);
}

#[test]
fn create_returns_poll_with_options_and_no_vote() {
    let mut store = Store::new();
    let response =
        store.create_new_poll(&identity(5, false), &request("Game", &["a", "b"], Some(at(900))), at(10)).unwrap();
    assert_eq!(response.poll.id, 1);
    assert_eq!(response.poll.title, "Game");
    assert_eq!(response.poll.description, Some("which one?".to_string()));
    assert_eq!(response.poll.created_by, 5);
    assert_eq!(response.poll.created_at, at(10));
    assert_eq!(response.poll.expires_at, Some(at(900)));
    assert!(response.poll.is_active);
    assert_eq!(response.user_vote, None);
    assert_eq!(response.options.len(), 2);
    assert_eq!(response.options[0].id, 1);
    assert_eq!(response.options[0].poll_id, 1);
    assert_eq!(response.options[0].text, "a");
    assert!(!response.options[0].is_date);
    assert_eq!(response.options[0].date_time, None);
    assert_eq!(response.options[1].id, 2);
    assert_eq!(response.options[1].text, "b");
    assert_eq!(store.get_poll(1), Some(response.poll));
    assert_eq!(store.get_poll_options(1), response.options);
}

#[test]
fn create_counts_ids_up() {
    let mut store = Store::new();
    let first = store.insert_poll(1, &request("One", &["a", "b", "c"], None), at(10)).unwrap();
    let second = store.insert_poll(2, &request("Two", &["x", "y"], None), at(11)).unwrap();
    assert_eq!(first.poll.id, 1);
    assert_eq!(second.poll.id, 2);
    assert_eq!(second.options[0].id, 4);
    assert_eq!(second.options[1].id, 5);
    assert_eq!(second.options[0].poll_id, 2);
}

#[test]
fn create_rejects_blank_title() {
    let mut store = Store::new();
    for title in ["", "   ", "\t\n"] {
        assert_eq!(
            store.insert_poll(1, &request(title, &["a", "b"], None), at(10)),
            Err(EngineError::EmptyTitle)
        );
    }
    assert_eq!(store.snapshot().polls.len(), 0);
    assert_eq!(store.snapshot().options.len(), 0);
}

#[test]
fn create_rejects_fewer_than_two_options() {
    let mut store = Store::new();
    assert_eq!(
        store.insert_poll(1, &request("Game", &[], None), at(10)),
        Err(EngineError::TooFewOptions)
    );
    assert_eq!(
        store.insert_poll(1, &request("Game", &["only"], None), at(10)),
        Err(EngineError::TooFewOptions)
    );
    assert_eq!(store.snapshot().polls.len(), 0);
    assert_eq!(store.snapshot().next_poll_id, 1);
}

#[test]
fn blank_title_is_reported_before_too_few_options() {
    let mut store = Store::new();
    assert_eq!(
        store.insert_poll(1, &request(" ", &[], None), at(10)),
        Err(EngineError::EmptyTitle)
    );
}

#[test]
fn create_keeps_the_title_as_given() {
    let mut store = Store::new();
    let response = store.insert_poll(1, &request("  Game  ", &["a", "b"], None), at(10)).unwrap();
    assert_eq!(response.poll.title, "  Game  ");
}

#[test]
fn create_with_calendar_options() {
    let mut store = Store::new();
    let payload = CreatePollRequest {
        title: "When".to_string(),
        description: None,
        options: vec![
            CreatePollOptionRequest { text: "Friday".to_string(), datetime_option: Some(at(500)) },
            CreatePollOptionRequest { text: "Whenever".to_string(), datetime_option: None },
        ],
        expires_at: None,
    };
    let response = store.insert_poll(1, &payload, at(10)).unwrap();
    assert!(response.options[0].is_date);
    assert_eq!(response.options[0].date_time, Some(at(500)));
    assert!(!response.options[1].is_date);
    assert_eq!(response.options[1].date_time, None);
}

#[test]
fn create_fails_when_poll_ids_have_run_out() {
    let mut rows = Store::new().snapshot();
    rows.next_poll_id = i64::MAX;
    let mut store = Store::from_rows(rows).unwrap();
    assert_eq!(
        store.insert_poll(1, &request("Game", &["a", "b"], None), at(10)),
        Err(EngineError::StoreFull)
    );
}

#[test]
fn create_fails_when_option_ids_would_run_out() {
    let mut rows = Store::new().snapshot();
    rows.next_option_id = i64::MAX - 2;
    let mut store = Store::from_rows(rows).unwrap();
    assert_eq!(
        store.insert_poll(1, &request("Game", &["a", "b", "c"], None), at(10)),
        Err(EngineError::StoreFull)
    );
    assert_eq!(store.snapshot().polls.len(), 0);
    let response = store.insert_poll(1, &request("Game", &["a", "b"], None), at(10)).unwrap();
    assert_eq!(response.options[1].id, i64::MAX - 1);
}

#[test]
fn read_option_detects_dates() {
    let plain = read_option("Catan".to_string());
    assert_eq!(plain.text, "Catan");
    assert_eq!(plain.datetime_option, None);
    let date = read_option("2025-06-01T19:30".to_string());
    assert_eq!(date.text, "2025-06-01T19:30");
    assert_eq!(date.datetime_option, Some(at(1748806200)));
}

#[test]
fn read_option_downgrades_unreadable_dates_to_text() {
    let option = read_option("Tuesday at the usual place".to_string());
    assert_eq!(option.text, "Tuesday at the usual place");
    assert_eq!(option.datetime_option, None);
    let option = read_option("2025-06-31T19:30".to_string());
    assert_eq!(option.datetime_option, None);
}

#[test]
fn read_poll_form_builds_the_request() {
    let r = read_poll_form(&form("Game", "2030-01-01T01:00", "Catan, 2030-01-02T18:00 ,, Chess")).unwrap();
    assert_eq!(r.title, "Game");
    assert_eq!(r.expires_at, Some(at(1893459600)));
    assert_eq!(r.options.len(), 3);
    assert_eq!(r.options[0].text, "Catan");
    assert_eq!(r.options[0].datetime_option, None);
    assert_eq!(r.options[1].text, "2030-01-02T18:00");
    assert_eq!(r.options[1].datetime_option, Some(at(1893607200)));
    assert_eq!(r.options[2].text, "Chess");
}

#[test]
fn read_poll_form_rejects_unreadable_expiry() {
    assert_eq!(read_poll_form(&form("Game", "soon", "a, b")), Err(EngineError::InvalidExpiry));
    assert_eq!(read_poll_form(&form("Game", "", "a, b")), Err(EngineError::InvalidExpiry));
}

#[test]
fn create_from_form_gives_the_id() {
    let mut store = Store::new();
    assert_eq!(store.create_poll(&form("Game", "2030-01-01T01:00", "a, b"), 3, at(10)), Ok(1));
    assert_eq!(store.create_poll(&form("More", "2030-01-01T01:00", "c, d, e"), 3, at(11)), Ok(2));
    let poll = store.get_poll(2).unwrap();
    assert_eq!(poll.created_by, 3);
    assert_eq!(poll.expires_at, Some(at(1893459600)));
    assert!(poll.is_active);
    let options = store.get_poll_options(2);
    assert_eq!(options.len(), 3);
    assert_eq!(options[0].id, 3);
    assert_eq!(options[2].text, "e");
}

#[test]
fn create_from_form_rejects_unreadable_expiry_first() {
    let mut store = Store::new();
    assert_eq!(store.create_poll(&form("", "never", ""), 3, at(10)), Err(EngineError::InvalidExpiry));
}

#[test]
fn create_from_form_holds_the_form_to_the_rules_of_a_request() {
    let mut store = Store::new();
    assert_eq!(
        store.create_poll(&form(" ", "2030-01-01T01:00", "a, b"), 3, at(10)),
        Err(EngineError::EmptyTitle)
    );
    assert_eq!(
        store.create_poll(&form("Game", "2030-01-01T01:00", "a, ,"), 3, at(10)),
        Err(EngineError::TooFewOptions)
    );
    assert_eq!(
        store.create_poll(&form("Game", "2030-01-01T01:00", ""), 3, at(10)),
        Err(EngineError::TooFewOptions)
    );
    assert_eq!(store.snapshot().polls.len(), 0);
}

#[test]
fn add_option_extends_a_poll() {
    let mut store = Store::new();
    store.insert_poll(1, &request("Game", &["a", "b"], None), at(10)).unwrap();
    assert_eq!(store.add_poll_option(1, "c", None), Ok(3));
    assert_eq!(store.add_poll_option(1, "d", Some(at(77))), Ok(4));
    let options = store.get_poll_options(1);
    assert_eq!(options.len(), 4);
    assert_eq!(options[2].text, "c");
    assert!(!options[2].is_date);
    assert!(options[3].is_date);
    assert_eq!(options[3].date_time, Some(at(77)));
    assert_eq!(store.cast_vote(1, 4, 9, VotingMode::SingleChoice, at(20)).is_ok(), true);
}

#[test]
fn add_option_to_missing_poll_is_not_found() {
    let mut store = Store::new();
    assert_eq!(store.add_poll_option(1, "c", None), Err(EngineError::PollNotFound));
    assert_eq!(store.snapshot().options.len(), 0);
}

#[test]
fn update_by_creator_changes_the_four_fields() {
    let mut store = Store::new();
    store.insert_poll(1, &request("Game", &["a", "b"], None), at(10)).unwrap();
    let poll = store.update_poll(1, &identity(1, false), &patch("New", Some(at(99)), false)).unwrap();
    assert_eq!(poll.id, 1);
    assert_eq!(poll.title, "New");
    assert_eq!(poll.description, Some("changed".to_string()));
    assert_eq!(poll.expires_at, Some(at(99)));
    assert!(!poll.is_active);
    assert_eq!(poll.created_by, 1);
    assert_eq!(poll.created_at, at(10));
    assert_eq!(store.get_poll(1), Some(poll));
    assert_eq!(store.get_poll_options(1).len(), 2);
}

#[test]
fn update_by_admin_is_allowed() {
    let mut store = Store::new();
    store.insert_poll(1, &request("Game", &["a", "b"], None), at(10)).unwrap();
    assert!(store.update_poll(1, &identity(2, true), &patch("New", None, true)).is_ok());
}

#[test]
fn update_by_another_user_is_forbidden() {
    let mut store = Store::new();
    store.insert_poll(1, &request("Game", &["a", "b"], None), at(10)).unwrap();
    let before = store.snapshot();
    assert_eq!(
        store.update_poll(1, &identity(2, false), &patch("New", None, true)),
        Err(EngineError::Forbidden)
    );
    assert_eq!(store.snapshot(), before);
}

#[test]
fn update_of_missing_poll_is_not_found() {
    let mut store = Store::new();
    assert_eq!(
        store.update_poll(1, &identity(2, true), &patch("New", None, true)),
        Err(EngineError::PollNotFound)
    );
}

#[test]
fn update_touches_only_its_poll() {
    let mut store = Store::new();
    store.insert_poll(1, &request("One", &["a", "b"], None), at(10)).unwrap();
    store.insert_poll(1, &request("Two", &["a", "b"], None), at(11)).unwrap();
    store.insert_poll(1, &request("Three", &["a", "b"], None), at(12)).unwrap();
    store.update_poll(2, &identity(1, false), &patch("Changed", None, true)).unwrap();
    assert_eq!(store.get_poll(1).unwrap().title, "One");
    assert_eq!(store.get_poll(2).unwrap().title, "Changed");
    assert_eq!(store.get_poll(3).unwrap().title, "Three");
}

#[test]
fn sweep_closes_expired_polls_only() {
    let mut store = Store::new();
    store.insert_poll(1, &request("Past", &["a", "b"], Some(at(100))), at(10)).unwrap();
    store.insert_poll(1, &request("Now", &["a", "b"], Some(at(200))), at(10)).unwrap();
    store.insert_poll(1, &request("Later", &["a", "b"], Some(at(300))), at(10)).unwrap();
    store.insert_poll(1, &request("Never", &["a", "b"], None), at(10)).unwrap();
    store.update_poll_statuses(at(200));
    assert!(!store.get_poll(1).unwrap().is_active);
    assert!(store.get_poll(2).unwrap().is_active);
    assert!(store.get_poll(3).unwrap().is_active);
    assert!(store.get_poll(4).unwrap().is_active);
}

#[test]
fn sweep_never_reopens_a_poll() {
    let mut store = Store::new();
    store.insert_poll(1, &request("Past", &["a", "b"], Some(at(100))), at(10)).unwrap();
    store.update_poll_statuses(at(500));
    assert!(!store.get_poll(1).unwrap().is_active);
    store.update_poll_statuses(at(50));
    assert!(!store.get_poll(1).unwrap().is_active);
}

#[test]
fn expired_poll_stays_closed_though_its_flag_is_set_again() {
    let mut store = Store::new();
    store.insert_poll(1, &request("Past", &["a", "b"], Some(at(100))), at(10)).unwrap();
    store.update_poll_statuses(at(500));
    store.update_poll(1, &identity(1, false), &patch("Past", Some(at(100)), true)).unwrap();
    assert_eq!(
        store.cast_vote(1, 1, 2, VotingMode::SingleChoice, at(500)),
        Err(EngineError::PollClosed)
    );
}

#[test]
fn status_of_a_poll() {
    let mut store = Store::new();
    store.insert_poll(1, &request("Game", &["a", "b"], Some(at(100))), at(10)).unwrap();
    let poll = store.get_poll(1).unwrap();
    assert!(poll.is_active(&at(100)));
    assert!(!poll.is_expired(&at(100)));
    assert_eq!(poll.get_status(&at(100)), "active");
    assert!(!poll.is_active(&at(101)));
    assert!(poll.is_expired(&at(101)));
    assert_eq!(poll.get_status(&at(101)), "expired");
}

#[test]
fn single_poll_comes_with_options_and_own_vote() {
    let mut store = Store::new();
    store.insert_poll(1, &request("Game", &["a", "b"], Some(at(100))), at(10)).unwrap();
    store.cast_vote(1, 2, 7, VotingMode::SingleChoice, at(20)).unwrap();
    let seen = store.get_single_poll(1, &identity(7, false), at(50)).unwrap();
    assert_eq!(seen.poll.id, 1);
    assert!(seen.poll.is_active);
    assert_eq!(seen.options.len(), 2);
    assert_eq!(seen.user_vote, Some(2));
    let other = store.get_single_poll(1, &identity(8, false), at(50)).unwrap();
    assert_eq!(other.user_vote, None);
}

#[test]
fn single_poll_is_swept_first() {
    let mut store = Store::new();
    store.insert_poll(1, &request("Game", &["a", "b"], Some(at(100))), at(10)).unwrap();
    let seen = store.get_single_poll(1, &identity(7, false), at(500)).unwrap();
    assert!(!seen.poll.is_active);
    assert_eq!(
        store.get_single_poll(2, &identity(7, false), at(500)),
        Err(EngineError::PollNotFound)
    );
}

#[test]
fn list_is_newest_first() {
    let mut store = Store::new();
    store.insert_poll(1, &request("Middle", &["a", "b"], None), at(20)).unwrap();
    store.insert_poll(1, &request("Oldest", &["a", "b"], None), at(10)).unwrap();
    store.insert_poll(1, &request("Newest", &["a", "b"], None), at(30)).unwrap();
    let titles: Vec<String> = store.list_polls(false).into_iter().map(|p| p.title).collect();
    assert_eq!(titles, vec!["Newest", "Middle", "Oldest"]);
}

#[test]
fn list_of_active_polls_leaves_inactive_ones_out() {
    let mut store = Store::new();
    store.insert_poll(1, &request("One", &["a", "b"], Some(at(100))), at(10)).unwrap();
    store.insert_poll(1, &request("Two", &["a", "b"], None), at(20)).unwrap();
    store.update_poll(2, &identity(1, false), &patch("Two", None, false)).unwrap();
    store.insert_poll(1, &request("Three", &["a", "b"], None), at(30)).unwrap();
    let ids: Vec<i64> = store.list_polls(true).into_iter().map(|p| p.id).collect();
    assert_eq!(ids, vec![3, 1]);
    let all: Vec<i64> = store.list_polls(false).into_iter().map(|p| p.id).collect();
    assert_eq!(all, vec![3, 2, 1]);
    let swept: Vec<i64> = store.get_all_polls(at(500)).into_iter().map(|p| p.id).collect();
    assert_eq!(swept, vec![3]);
}

#[test]
fn active_and_expired_polls_part_the_polls() {
    let mut store = Store::new();
    store.create_user("ann", "h", false, at(1)).unwrap();
    store.insert_poll(1, &request("Past", &["a", "b"], Some(at(100))), at(10)).unwrap();
    store.insert_poll(1, &request("Open", &["a", "b"], Some(at(900))), at(20)).unwrap();
    store.insert_poll(1, &request("Never", &["a", "b"], None), at(30)).unwrap();
    store.insert_poll(99, &request("Orphan", &["a", "b"], None), at(40)).unwrap();
    let active: Vec<i64> = store.get_active_polls(at(500)).into_iter().map(|p| p.id).collect();
    let expired: Vec<i64> = store.get_expired_polls(at(500)).into_iter().map(|p| p.id).collect();
    assert_eq!(active, vec![3, 2]);
    assert_eq!(expired, vec![1]);
}

#[test]
fn poll_by_id_comes_with_the_creator() {
    let mut store = Store::new();
    store.create_user("ann", "h", false, at(1)).unwrap();
    store.insert_poll(1, &request("Game", &["a", "b"], Some(at(100))), at(10)).unwrap();
    store.insert_poll(99, &request("Orphan", &["a", "b"], None), at(40)).unwrap();
    let poll = store.get_poll_by_id(1).unwrap();
    assert_eq!(poll.id, 1);
    assert_eq!(poll.title, "Game");
    assert_eq!(poll.creator_id, 1);
    assert_eq!(poll.creator_username, "ann");
    assert_eq!(poll.created_at, at(10));
    assert_eq!(poll.expires_at, Some(at(100)));
    assert_eq!(store.get_poll_by_id(2), Err(EngineError::PollNotFound));
    assert_eq!(store.get_poll_by_id(3), Err(EngineError::PollNotFound));
}

#[test]
fn delete_by_creator_cascades() {
    let mut store = Store::new();
    store.insert_poll(1, &request("One", &["a", "b"], None), at(10)).unwrap();
    store.insert_poll(2, &request("Two", &["x", "y"], None), at(11)).unwrap();
    store.cast_vote(1, 1, 7, VotingMode::MultiChoice, at(20)).unwrap();
    store.cast_vote(1, 2, 7, VotingMode::MultiChoice, at(21)).unwrap();
    store.cast_vote(2, 3, 7, VotingMode::MultiChoice, at(22)).unwrap();
    store.cast_vote(1, 2, 8, VotingMode::MultiChoice, at(23)).unwrap();
    assert_eq!(store.delete_poll(1, &identity(1, false)), Ok(()));
    let rows = store.snapshot();
    assert_eq!(rows.polls.len(), 1);
    assert_eq!(rows.polls[0].id, 2);
    assert_eq!(rows.options.iter().map(|o| o.id).collect::<Vec<i64>>(), vec![3, 4]);
    assert_eq!(rows.votes.len(), 1);
    assert_eq!(rows.votes[0].option_id, 3);
    assert_eq!(store.get_results(1, 7), Err(EngineError::PollNotFound));
    assert_eq!(store.get_poll(1), None);
    assert_eq!(store.get_results(2, 7).unwrap().total_votes, 1);
}

#[test]
fn delete_by_admin_cascades() {
    let mut store = Store::new();
    store.insert_poll(1, &request("One", &["a", "b"], None), at(10)).unwrap();
    store.cast_vote(1, 1, 7, VotingMode::SingleChoice, at(20)).unwrap();
    assert_eq!(store.delete_poll(1, &identity(50, true)), Ok(()));
    let rows = store.snapshot();
    assert_eq!(rows.polls.len(), 0);
    assert_eq!(rows.options.len(), 0);
    assert_eq!(rows.votes.len(), 0);
    assert_eq!(store.get_results(1, 7), Err(EngineError::PollNotFound));
}

#[test]
fn delete_by_another_user_is_forbidden_and_changes_nothing() {
    let mut store = Store::new();
    store.insert_poll(1, &request("One", &["a", "b"], None), at(10)).unwrap();
    store.cast_vote(1, 1, 7, VotingMode::SingleChoice, at(20)).unwrap();
    let before = store.snapshot();
    assert_eq!(store.delete_poll(1, &identity(7, false)), Err(EngineError::Forbidden));
    assert_eq!(store.snapshot(), before);
}

#[test]
fn delete_of_missing_poll() {
    let mut store = Store::new();
    store.insert_poll(1, &request("One", &["a", "b"], None), at(10)).unwrap();
    let before = store.snapshot();
    assert_eq!(store.delete_poll(9, &identity(1, false)), Err(EngineError::Forbidden));
    assert_eq!(store.delete_poll(9, &identity(2, true)), Ok(()));
    assert_eq!(store.snapshot(), before);
}

#[test]
fn ids_of_deleted_polls_are_not_used_again() {
    let mut store = Store::new();
    store.insert_poll(1, &request("One", &["a", "b"], None), at(10)).unwrap();
    store.delete_poll(1, &identity(1, false)).unwrap();
    let next = store.insert_poll(1, &request("Two", &["a", "b"], None), at(11)).unwrap();
    assert_eq!(next.poll.id, 2);
    assert_eq!(next.options[0].id, 3);
}
