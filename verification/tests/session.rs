use game_night::clock::Timestamp;
use game_night::error::EngineError;
use game_night::forms::{
    ChangePasswordForm, CreatePollOptionRequest, CreatePollRequest, LoginForm, MessageType,
    ToggleRoleForm,
};
use game_night::metrics::Metrics;
use game_night::models::User;
use game_night::session::{
    admin_user, authenticated_user, authorize, change_password, clear_login_cookie, delete_poll,
    login_controller, login_post, logout_controller, path_is_open, screen_request,
    set_login_cookie, toggle_user_role, token_claims, Claims, Screening, SessionJar, LOGIN_COOKIE,
    TOKEN_LIFETIME_SECS,
};
use game_night::store::Store;

fn at(secs: i64) -> Timestamp {
    Timestamp::from_secs(secs)
}

fn people() -> Store {
    let mut store = Store::new();
    store.create_user("root", "h", true, at(1)).unwrap();
    store.create_user("joe", "h", false, at(2)).unwrap();
    store
}

fn claims(sub: &str) -> Claims {
    Claims { sub: sub.to_string(), username: "x".to_string(), is_admin: false, exp: 10, iat: 0 }
}

#[test]
fn login_cookie_is_named_user_id() {
    assert_eq!(LOGIN_COOKIE, "user_id");
}

#[test]
fn a_token_is_good_for_a_day() {
    assert_eq!(TOKEN_LIFETIME_SECS, 24 * 60 * 60);
}

#[test]
fn set_login_cookie_writes_the_id_in_decimal() {
    let mut jar = SessionJar::new();
    assert_eq!(jar.login_value(), None);
    set_login_cookie(&mut jar, 42);
    assert_eq!(jar.login_value(), Some("42".to_string()));
    set_login_cookie(&mut jar, -7);
    assert_eq!(jar.login_value(), Some("-7".to_string()));
}

#[test]
fn clear_login_cookie_takes_the_cookie_out() {
    let mut jar = SessionJar::with_login("42".to_string());
    clear_login_cookie(&mut jar);
    assert_eq!(jar.login_value(), None);
    clear_login_cookie(&mut jar);
    assert_eq!(jar.login_value(), None);
}

#[test]
fn logout_clears_the_cookie_and_says_so() {
    let mut jar = SessionJar::with_login("42".to_string());
    let flash = logout_controller(&mut jar);
    assert_eq!(jar.login_value(), None);
    assert_eq!(flash.message_type, MessageType::Success);
    assert_eq!(flash.message, "You have been logged out.");
}

#[test]
fn guard_admits_the_user_of_the_cookie() {
    let store = people();
    let mut jar = SessionJar::with_login("2".to_string());
    let guard = authenticated_user(&store, &mut jar).unwrap();
    assert_eq!(guard.user.username, "joe");
    assert_eq!(jar.login_value(), Some("2".to_string()));
    let mut jar = SessionJar::with_login("+1".to_string());
    assert_eq!(authenticated_user(&store, &mut jar).unwrap().user.id, 1);
}

#[test]
fn guard_rejects_a_request_without_cookie() {
    let store = people();
    let mut jar = SessionJar::new();
    assert_eq!(authenticated_user(&store, &mut jar), Err(EngineError::NotAuthenticated));
    assert_eq!(jar.login_value(), None);
}

#[test]
fn guard_rejects_a_cookie_that_is_no_id_and_leaves_it() {
    let store = people();
    let mut jar = SessionJar::with_login("joe".to_string());
    assert_eq!(authenticated_user(&store, &mut jar), Err(EngineError::NotAuthenticated));
    assert_eq!(jar.login_value(), Some("joe".to_string()));
}

#[test]
fn guard_takes_a_stale_cookie_out() {
    let store = people();
    let mut jar = SessionJar::with_login("3".to_string());
    assert_eq!(authenticated_user(&store, &mut jar), Err(EngineError::NotAuthenticated));
    assert_eq!(jar.login_value(), None);
}

#[test]
fn admin_guard_admits_admins_only() {
    let store = people();
    let mut jar = SessionJar::with_login("1".to_string());
    assert_eq!(admin_user(&store, &mut jar).unwrap().user.username, "root");
    let mut jar = SessionJar::with_login("2".to_string());
    assert_eq!(admin_user(&store, &mut jar), Err(EngineError::Forbidden));
    assert_eq!(jar.login_value(), Some("2".to_string()));
    let mut jar = SessionJar::new();
    assert_eq!(admin_user(&store, &mut jar), Err(EngineError::Forbidden));
    let mut jar = SessionJar::with_login("9".to_string());
    assert_eq!(admin_user(&store, &mut jar), Err(EngineError::Forbidden));
    assert_eq!(jar.login_value(), None);
}

#[test]
fn login_controller_sets_the_cookie_on_success_only() {
    let mut store = Store::new();
    store.add_user("ann", "pw", false, at(1)).unwrap();
    let mut jar = SessionJar::new();
    let bad = LoginForm { username: "ann".to_string(), password: "no".to_string() };
    assert_eq!(login_controller(&store, &bad, &mut jar), Err(EngineError::InvalidCredentials));
    assert_eq!(jar.login_value(), None);
    let unknown = LoginForm { username: "bob".to_string(), password: "pw".to_string() };
    assert_eq!(login_controller(&store, &unknown, &mut jar), Err(EngineError::UserNotFound));
    assert_eq!(jar.login_value(), None);
    let good = LoginForm { username: "ann".to_string(), password: "pw".to_string() };
    let user = login_controller(&store, &good, &mut jar).unwrap();
    assert_eq!(user.id, 1);
    assert_eq!(jar.login_value(), Some("1".to_string()));
    assert_eq!(authenticated_user(&store, &mut jar).unwrap().user, user);
}

#[test]
fn login_post_counts_attempts_successes_and_failures() {
    let mut store = Store::new();
    store.add_user("ann", "pw", false, at(1)).unwrap();
    let mut metrics = Metrics::new();
    let mut jar = SessionJar::new();
    let bad = LoginForm { username: "ann".to_string(), password: "no".to_string() };
    let good = LoginForm { username: "ann".to_string(), password: "pw".to_string() };
    assert!(login_post(&store, &mut metrics, &bad, &mut jar).is_err());
    assert!(login_post(&store, &mut metrics, &bad, &mut jar).is_err());
    assert!(login_post(&store, &mut metrics, &good, &mut jar).is_ok());
    assert_eq!(metrics.login_attempts(), 3);
    assert_eq!(metrics.failed_logins(), 2);
    assert_eq!(metrics.successful_logins(), 1);
    assert_eq!(jar.login_value(), Some("1".to_string()));
}

#[test]
fn claims_name_the_user_for_a_day() {
    let user = User {
        id: 17,
        username: "ann".to_string(),
        password_hash: "h".to_string(),
        is_admin: true,
        created_at: at(0),
    };
    let claims = token_claims(&user, 1_000_000);
    assert_eq!(
        claims,
        Claims {
            sub: "17".to_string(),
            username: "ann".to_string(),
            is_admin: true,
            exp: 1_086_400,
            iat: 1_000_000,
        }
    );
}

#[test]
fn open_paths_need_no_user() {
    assert!(path_is_open("/api/health"));
    assert!(path_is_open("/api/metrics"));
    assert!(path_is_open("/api/login"));
    assert!(path_is_open("/api/register"));
    assert!(!path_is_open("/api/polls"));
    assert!(!path_is_open("/api/health/"));
    assert!(!path_is_open(""));
}

#[test]
fn screening_wants_a_bearer_header() {
    assert_eq!(screen_request(None, "/api/polls"), Screening::Rejected);
    assert_eq!(screen_request(None, "/api/health"), Screening::Rejected);
    assert_eq!(screen_request(Some(""), "/api/polls"), Screening::Rejected);
    assert_eq!(screen_request(Some("Basic abc"), "/api/polls"), Screening::Rejected);
    assert_eq!(screen_request(Some("bearer abc"), "/api/polls"), Screening::Rejected);
    assert_eq!(screen_request(Some("Bearer"), "/api/polls"), Screening::Rejected);
}

#[test]
fn screening_hands_the_token_on() {
    assert_eq!(
        screen_request(Some("Bearer abc.def.ghi"), "/api/polls"),
        Screening::Token("abc.def.ghi".to_string())
    );
    assert_eq!(screen_request(Some("Bearer "), "/api/polls"), Screening::Token(String::new()));
    assert_eq!(
        screen_request(Some("Bearer  x"), "/api/polls/1/vote"),
        Screening::Token(" x".to_string())
    );
}

#[test]
fn screening_lets_open_paths_through_without_looking_at_the_token() {
    assert_eq!(screen_request(Some("Bearer nonsense"), "/api/login"), Screening::Open);
    assert_eq!(screen_request(Some("Bearer "), "/api/health"), Screening::Open);
}

#[test]
fn authorize_finds_the_user_of_the_subject() {
    let store = people();
    let info = authorize(&store, &claims("2")).unwrap();
    assert_eq!(info.id, 2);
    assert_eq!(info.username, "joe");
    assert!(!info.is_admin);
    assert_eq!(authorize(&store, &claims("3")), Err(EngineError::NotAuthenticated));
    assert_eq!(authorize(&store, &claims("joe")), Err(EngineError::NotAuthenticated));
    assert_eq!(authorize(&store, &claims("")), Err(EngineError::NotAuthenticated));
}

#[test]
fn admin_of_the_session_changes_roles_but_not_their_own() {
    let mut store = people();
    let mut jar = SessionJar::with_login("1".to_string());
    let admin = admin_user(&store, &mut jar).unwrap();
    assert_eq!(
        toggle_user_role(&mut store, &admin, &ToggleRoleForm { user_id: 2, set_admin: true }),
        Ok(())
    );
    assert!(store.get_user_by_id(2).unwrap().is_admin);
    assert_eq!(
        toggle_user_role(&mut store, &admin, &ToggleRoleForm { user_id: 1, set_admin: false }),
        Err(EngineError::Forbidden)
    );
    assert!(store.get_user_by_id(1).unwrap().is_admin);
}

#[test]
fn user_of_the_session_deletes_own_polls_only() {
    let mut store = people();
    let request = CreatePollRequest {
        title: "Game".to_string(),
        description: None,
        options: vec![
            CreatePollOptionRequest { text: "a".to_string(), datetime_option: None },
            CreatePollOptionRequest { text: "b".to_string(), datetime_option: None },
        ],
        expires_at: None,
    };
    store.insert_poll(2, &request, at(5)).unwrap();
    store.insert_poll(1, &request, at(6)).unwrap();
    let mut jar = SessionJar::with_login("2".to_string());
    let joe = authenticated_user(&store, &mut jar).unwrap();
    assert_eq!(joe.to_identity().id, 2);
    assert!(!joe.to_identity().is_admin);
    assert_eq!(delete_poll(&mut store, 2, &joe), Err(EngineError::Forbidden));
    assert_eq!(delete_poll(&mut store, 1, &joe), Ok(()));
    assert_eq!(store.snapshot().polls.len(), 1);
}

#[test]
fn user_of_the_session_changes_the_password() {
    let mut store = Store::new();
    store.add_user("ann", "old", false, at(1)).unwrap();
    let mut jar = SessionJar::with_login("1".to_string());
    let ann = authenticated_user(&store, &mut jar).unwrap();
    let form = ChangePasswordForm {
        current_password: "old".to_string(),
        new_password: "new".to_string(),
        confirm_password: "new".to_string(),
    };
    assert_eq!(change_password(&mut store, &ann, &form), Ok(()));
    assert!(store.login_user("ann", "new").is_ok());
    assert_eq!(change_password(&mut store, &ann, &form), Err(EngineError::InvalidCredentials));
}

#[test]
fn password_change_of_the_session_is_refused_in_order() {
    let mut store = Store::new();
    store.add_user("ann", "old", false, at(1)).unwrap();
    let mut jar = SessionJar::with_login("1".to_string());
    let ann = authenticated_user(&store, &mut jar).unwrap();
    let form = |current: &str, new: &str, confirm: &str| ChangePasswordForm {
        current_password: current.to_string(),
        new_password: new.to_string(),
        confirm_password: confirm.to_string(),
    };
    let before = store.snapshot();
    assert_eq!(
        change_password(&mut store, &ann, &form("wrong", " ", "x")),
        Err(EngineError::EmptyPassword)
    );
    assert_eq!(
        change_password(&mut store, &ann, &form("wrong", "new", "other")),
        Err(EngineError::PasswordMismatch)
    );
    assert_eq!(
        change_password(&mut store, &ann, &form("wrong", "new", "new")),
        Err(EngineError::InvalidCredentials)
    );
    assert_eq!(store.snapshot(), before);
    let mut empty = Store::new();
    assert_eq!(
        change_password(&mut empty, &ann, &form("old", "new", "new")),
        Err(EngineError::UserNotFound)
    );
}
