use game_night::access::{can_change_role, can_mutate, can_view_voters};
use game_night::clock::Timestamp;
use game_night::models::{Poll, UserInfo};

fn identity(id: i64, is_admin: bool) -> UserInfo {
    UserInfo { id, username: format!("user{}", id), created_at: Timestamp::from_secs(0), is_admin }
}

fn poll_of(creator: i64) -> Poll {
    Poll {
        id: 9,
        title: "Game".to_string(),
        description: None,
        created_by: creator,
        created_at: Timestamp::from_secs(0),
        expires_at: None,
        is_active: true,
    }
}

#[test]
fn creator_may_mutate_and_view_voters() {
    assert!(can_mutate(&identity(1, false), &poll_of(1)));
    assert!(can_view_voters(&identity(1, false), &poll_of(1)));
}

#[test]
fn admin_may_mutate_and_view_voters_of_any_poll() {
    assert!(can_mutate(&identity(2, true), &poll_of(1)));
    assert!(can_view_voters(&identity(2, true), &poll_of(1)));
}

#[test]
fn others_may_neither_mutate_nor_view_voters() {
    assert!(!can_mutate(&identity(2, false), &poll_of(1)));
    assert!(!can_view_voters(&identity(2, false), &poll_of(1)));
}

#[test]
fn nobody_changes_their_own_role() {
    assert!(!can_change_role(1, 1));
    assert!(can_change_role(1, 2));
    assert!(can_change_role(2, 1));
}
