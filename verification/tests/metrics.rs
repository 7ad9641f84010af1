use game_night::clock::Timestamp;
use game_night::forms::{CreatePollOptionRequest, CreatePollRequest};
use game_night::metrics::{
    increment_failed_login, increment_login_attempt, increment_successful_login, record_error,
    record_request, update_metrics, Metrics,
};
use game_night::models::VotingMode;
use game_night::store::Store;

fn at(secs: i64) -> Timestamp {
    Timestamp::from_secs(secs)
}

#[test]
fn new_registry_counts_nothing() {
    let metrics = Metrics::new();
    assert_eq!(metrics.requests_total(), 0);
    assert_eq!(metrics.request_count("/api/polls", "GET"), 0);
    assert_eq!(metrics.error_count("/api/polls", 500), 0);
    assert_eq!(metrics.login_attempts(), 0);
    assert_eq!(metrics.successful_logins(), 0);
    assert_eq!(metrics.failed_logins(), 0);
    assert_eq!(metrics.active_polls(), 0);
    assert_eq!(metrics.total_polls(), 0);
    assert_eq!(metrics.total_votes(), 0);
    assert_eq!(metrics.total_users(), 0);
}

#[test]
fn requests_are_counted_by_endpoint_and_method() {
    let mut metrics = Metrics::new();
    record_request(&mut metrics, "/api/polls", "GET");
    record_request(&mut metrics, "/api/polls", "GET");
    record_request(&mut metrics, "/api/polls", "POST");
    record_request(&mut metrics, "/api/login", "POST");
    assert_eq!(metrics.requests_total(), 4);
    assert_eq!(metrics.request_count("/api/polls", "GET"), 2);
    assert_eq!(metrics.request_count("/api/polls", "POST"), 1);
    assert_eq!(metrics.request_count("/api/login", "POST"), 1);
    assert_eq!(metrics.request_count("/api/login", "GET"), 0);
    assert_eq!(metrics.error_count("/api/polls", 200), 0);
    assert_eq!(metrics.login_attempts(), 0);
}

#[test]
fn errors_are_counted_by_endpoint_and_status() {
    let mut metrics = Metrics::new();
    record_error(&mut metrics, "/api/polls", 404);
    record_error(&mut metrics, "/api/polls", 500);
    record_error(&mut metrics, "/api/polls", 404);
    record_error(&mut metrics, "/api/users", 404);
    assert_eq!(metrics.error_count("/api/polls", 404), 2);
    assert_eq!(metrics.error_count("/api/polls", 500), 1);
    assert_eq!(metrics.error_count("/api/users", 404), 1);
    assert_eq!(metrics.error_count("/api/users", 500), 0);
    assert_eq!(metrics.requests_total(), 0);
}

#[test]
fn counters_are_listed_pair_by_pair() {
    let mut metrics = Metrics::new();
    assert_eq!(metrics.request_counts(), vec![]);
    record_request(&mut metrics, "/api/polls", "GET");
    record_request(&mut metrics, "/api/login", "POST");
    record_request(&mut metrics, "/api/polls", "GET");
    record_error(&mut metrics, "/api/polls", 404);
    record_error(&mut metrics, "/api/polls", 404);
    record_error(&mut metrics, "/api/polls", 500);
    let mut requests = metrics.request_counts();
    requests.sort();
    assert_eq!(
        requests,
        vec![
            ("/api/login".to_string(), "POST".to_string(), 1),
            ("/api/polls".to_string(), "GET".to_string(), 2),
        ]
    );
    let mut errors = metrics.error_counts();
    errors.sort();
    assert_eq!(
        errors,
        vec![
            ("/api/polls".to_string(), "404".to_string(), 2),
            ("/api/polls".to_string(), "500".to_string(), 1),
        ]
    );
}

#[test]
fn logins_are_counted() {
    let mut metrics = Metrics::new();
    increment_login_attempt(&mut metrics);
    increment_login_attempt(&mut metrics);
    increment_login_attempt(&mut metrics);
    increment_successful_login(&mut metrics);
    increment_failed_login(&mut metrics);
    increment_failed_login(&mut metrics);
    assert_eq!(metrics.login_attempts(), 3);
    assert_eq!(metrics.successful_logins(), 1);
    assert_eq!(metrics.failed_logins(), 2);
    assert_eq!(metrics.requests_total(), 0);
}

#[test]
fn gauges_show_what_the_store_holds() {
    let mut store = Store::new();
    store.create_user("ann", "h", false, at(1)).unwrap();
    store.create_user("bob", "h", false, at(1)).unwrap();
    let request = |expires_at| CreatePollRequest {
        title: "Game".to_string(),
        description: None,
        options: vec![
            CreatePollOptionRequest { text: "a".to_string(), datetime_option: None },
            CreatePollOptionRequest { text: "b".to_string(), datetime_option: None },
        ],
        expires_at,
    };
    store.insert_poll(1, &request(Some(at(100))), at(2)).unwrap();
    store.insert_poll(1, &request(Some(at(900))), at(3)).unwrap();
    store.insert_poll(1, &request(None), at(4)).unwrap();
    store.cast_vote(1, 1, 2, VotingMode::SingleChoice, at(5)).unwrap();
    store.cast_vote(2, 3, 2, VotingMode::SingleChoice, at(6)).unwrap();

    let mut metrics = Metrics::new();
    increment_login_attempt(&mut metrics);
    update_metrics(&mut metrics, &store, at(500));
    assert_eq!(metrics.active_polls(), 2);
    assert_eq!(metrics.total_polls(), 3);
    assert_eq!(metrics.total_votes(), 2);
    assert_eq!(metrics.total_users(), 2);
    assert_eq!(metrics.login_attempts(), 1);

    update_metrics(&mut metrics, &store, at(50));
    assert_eq!(metrics.active_polls(), 3);
    update_metrics(&mut metrics, &Store::new(), at(50));
    assert_eq!(metrics.active_polls(), 0);
    assert_eq!(metrics.total_polls(), 0);
    assert_eq!(metrics.total_users(), 0);
}
