//! Access control: who may change a poll, see its voters, or change a role.
use crate::models::{Poll, PollView, UserInfo, UserInfoView};
use vstd::prelude::*;

verus! {

/// An identity may change or delete a poll when it is an administrator or
/// created the poll.
pub open spec fn may_mutate(identity: UserInfoView, poll: PollView) -> bool {
    identity.is_admin || identity.id == poll.created_by
}

/// The list of voters is private to the poll's creator and to
/// administrators.
pub open spec fn may_view_voters(identity: UserInfoView, poll: PollView) -> bool {
    identity.is_admin || identity.id == poll.created_by
}

/// Nobody changes their own role.
pub open spec fn may_change_role(acting_id: i64, target_id: i64) -> bool {
    acting_id != target_id
}

/// Whether the identity may change or delete the poll.
pub fn can_mutate(identity: &UserInfo, poll: &Poll) -> (r: bool)
    ensures
        r == may_mutate(identity@, poll@),
{
    identity.is_admin || identity.id == poll.created_by
}

/// Whether the identity may see who voted in the poll.
pub fn can_view_voters(identity: &UserInfo, poll: &Poll) -> (r: bool)
    ensures
        r == may_view_voters(identity@, poll@),
{
    identity.is_admin || identity.id == poll.created_by
}

/// Whether the acting user may change the role of the target.
pub fn can_change_role(acting_id: i64, target_id: i64) -> (r: bool)
    ensures
        r == may_change_role(acting_id, target_id),
{
    acting_id != target_id
}

} // verus!
