//! The identity store: looking users up, listing them, storing new ones,
//! and changing a user's role or stored credential.
use crate::access::may_change_role;
use crate::clock::Timestamp;
use crate::error::EngineError;
use crate::models::{PollView, User, UserInfo, UserView, Vote};
use crate::order::{is_ranking_of, sort_by_rank, views_of};
use crate::rows::{find_id, has_id, index_of_id, lemma_find_at, lemma_push_row};
use crate::store::{poll_views, user_views, Store, StoreState};
use vstd::prelude::*;

verus! {

/// The polls that a user created.
pub open spec fn created_by(user_id: i64) -> spec_fn(PollView) -> bool {
    |p: PollView| p.created_by == user_id
}

/// The votes that a user cast.
pub open spec fn voted_by(user_id: i64) -> spec_fn(Vote) -> bool {
    |v: Vote| v.user_id == user_id
}

impl StoreState {
    /// Some user has the name.
    pub open spec fn username_taken(self, username: Seq<char>) -> bool {
        exists|i: int| 0 <= i < self.users.len() && (#[trigger] self.users[i]).username == username
    }

    /// The user with the name, if there is one.
    pub open spec fn user_named(self, username: Seq<char>) -> Option<UserView> {
        if self.username_taken(username) {
            Some(
                self.users[choose|i: int|
                    0 <= i < self.users.len() && (#[trigger] self.users[i]).username == username],
            )
        } else {
            None
        }
    }

    /// Some user is an administrator.
    pub open spec fn has_admin(self) -> bool {
        exists|i: int| 0 <= i < self.users.len() && (#[trigger] self.users[i]).is_admin
    }

    /// The row of a new user.
    pub open spec fn new_user(
        self,
        username: Seq<char>,
        password_hash: Seq<char>,
        is_admin: bool,
        now: Timestamp,
    ) -> UserView {
        UserView { id: self.next_user_id, username, password_hash, is_admin, created_at: now }
    }

    /// The store with one more user.
    pub open spec fn with_user(self, user: UserView) -> StoreState {
        StoreState {
            users: self.users.push(user),
            next_user_id: (self.next_user_id + 1) as i64,
            ..self
        }
    }

    /// The creation of a user: the store after it, and the new row.
    /// `UsernameTaken` where the name is in use, `StoreFull` where the ids
    /// have run out.
    pub open spec fn create_user(
        self,
        username: Seq<char>,
        password_hash: Seq<char>,
        is_admin: bool,
        now: Timestamp,
    ) -> (StoreState, Result<UserView, EngineError>) {
        if self.username_taken(username) {
            (self, Err(EngineError::UsernameTaken))
        } else if self.next_user_id == i64::MAX {
            (self, Err(EngineError::StoreFull))
        } else {
            let user = self.new_user(username, password_hash, is_admin, now);
            (self.with_user(user), Ok(user))
        }
    }

    /// The store with another row in the place of the user with the id.
    pub open spec fn with_user_replaced(self, user_id: i64, user: UserView) -> StoreState {
        StoreState { users: self.users.update(index_of_id(self.users, user_id), user), ..self }
    }

    /// A change of role: nobody changes their own; the target must exist.
    pub open spec fn set_role(self, user_id: i64, set_admin: bool, admin_id: i64) -> (
        StoreState,
        Result<(), EngineError>,
    ) {
        if !may_change_role(admin_id, user_id) {
            (self, Err(EngineError::Forbidden))
        } else {
            match find_id(self.users, user_id) {
                None => (self, Err(EngineError::UserNotFound)),
                Some(user) => (
                    self.with_user_replaced(user_id, UserView { is_admin: set_admin, ..user }),
                    Ok(()),
                ),
            }
        }
    }

    /// A new stored hash for a user.
    pub open spec fn set_password_hash(self, user_id: i64, password_hash: Seq<char>) -> (
        StoreState,
        Result<(), EngineError>,
    ) {
        match find_id(self.users, user_id) {
            None => (self, Err(EngineError::UserNotFound)),
            Some(user) => (
                self.with_user_replaced(user_id, UserView { password_hash, ..user }),
                Ok(()),
            ),
        }
    }

    /// How many polls the user created and how many votes the user cast.
    pub open spec fn user_stats(self, user_id: i64) -> (nat, nat) {
        (self.polls.filter(created_by(user_id)).len(), self.votes.filter(voted_by(user_id)).len())
    }
}

/// Where ids ascend and names differ, a user is found by name exactly at
/// its position.
pub proof fn lemma_user_named_at(s: StoreState, i: int)
    requires
        s.wf(),
        0 <= i < s.users.len(),
    ensures
        s.user_named(s.users[i].username) == Some(s.users[i]),
{
    let name = s.users[i].username;
    let k = choose|k: int| 0 <= k < s.users.len() && (#[trigger] s.users[k]).username == name;
    if k < i {
        assert(s.users[k].username != s.users[i].username);
    } else if i < k {
        assert(s.users[i].username != s.users[k].username);
    }
}

/// One more user with an unused name keeps the invariant.
pub proof fn lemma_create_user_wf(
    s: StoreState,
    username: Seq<char>,
    password_hash: Seq<char>,
    is_admin: bool,
    now: Timestamp,
)
    requires
        s.wf(),
    ensures
        s.create_user(username, password_hash, is_admin, now).0.wf(),
{
    let t = s.create_user(username, password_hash, is_admin, now).0;
    if t != s {
        let user = s.new_user(username, password_hash, is_admin, now);
        lemma_push_row(s.users, user, s.next_user_id);
        assert forall|i: int, j: int|
            #![trigger t.users[i], t.users[j]]
            0 <= i < j < t.users.len() implies t.users[i].username != t.users[j].username by {
            if j < s.users.len() {
                assert(s.users[i].username != s.users[j].username);
            } else {
                assert(s.users[i].username != username);
            }
        }
        assert forall|i: int| 0 <= i < t.options.len() implies has_id(
            t.polls,
            (#[trigger] t.options[i]).poll_id,
        ) by {
            assert(has_id(s.polls, s.options[i].poll_id));
        }
        assert forall|i: int| 0 <= i < t.votes.len() implies t.option_of_poll(
            (#[trigger] t.votes[i]).option_id,
            t.votes[i].poll_id,
        ) by {
            assert(s.option_of_poll(s.votes[i].option_id, s.votes[i].poll_id));
        }
    }
}

/// Another row for a user, with the same id and name, keeps the invariant.
pub proof fn lemma_user_replaced_wf(s: StoreState, user_id: i64, user: UserView)
    requires
        s.wf(),
        find_id(s.users, user_id) matches Some(before) && before.id == user.id && before.username
            == user.username,
    ensures
        s.with_user_replaced(user_id, user).wf(),
{
    let t = s.with_user_replaced(user_id, user);
    let at = index_of_id(s.users, user_id);
    assert forall|i: int, j: int|
        #![trigger t.users[i], t.users[j]]
        0 <= i < j < t.users.len() implies t.users[i].id < t.users[j].id && t.users[i].username
            != t.users[j].username by {
        assert(s.users[i].id < s.users[j].id);
        assert(s.users[i].username != s.users[j].username);
    }
    assert forall|i: int| 0 <= i < t.users.len() implies 0 < (#[trigger] t.users[i]).id
        < t.next_user_id by {
        assert(0 < s.users[i].id < s.next_user_id);
    }
    assert forall|i: int| 0 <= i < t.options.len() implies has_id(
        t.polls,
        (#[trigger] t.options[i]).poll_id,
    ) by {
        assert(has_id(s.polls, s.options[i].poll_id));
    }
    assert forall|i: int| 0 <= i < t.votes.len() implies t.option_of_poll(
        (#[trigger] t.votes[i]).option_id,
        t.votes[i].poll_id,
    ) by {
        assert(s.option_of_poll(s.votes[i].option_id, s.votes[i].poll_id));
    }
}

impl Store {
    /// The user with the name.
    pub fn get_user_by_username(&self, username: &str) -> (r: Option<User>)
        requires
            self.wf(),
        ensures
            match r {
                Some(user) => self@.user_named(username@) == Some(user@),
                None => self@.user_named(username@) is None,
            },
    {
        proof {
            self.view_is();
        }
        match self.username_index(username) {
            Some(i) => {
                proof {
                    lemma_user_named_at(self@, i as int);
                }
                Some(self.users[i].clone())
            },
            None => None,
        }
    }

    /// The user with the id.
    pub fn get_user_by_id(&self, id: i64) -> (r: Option<User>)
        requires
            self.wf(),
        ensures
            match r {
                Some(user) => find_id(self@.users, id) == Some(user@),
                None => find_id(self@.users, id) is None,
            },
    {
        proof {
            self.view_is();
        }
        match self.user_index(id) {
            Some(i) => {
                proof {
                    lemma_find_at(self@.users, i as int);
                }
                Some(self.users[i].clone())
            },
            None => None,
        }
    }

    /// Stores a new user with the given hash of the password.
    ///
    /// Fails with `UsernameTaken` where another user has the name and with
    /// `StoreFull` where the ids have run out; the store then stays as it
    /// was.
    pub fn create_user(
        &mut self,
        username: &str,
        password_hash: &str,
        is_admin: bool,
        now: Timestamp,
    ) -> (r: Result<User, EngineError>)
        requires
            old(self).wf(),
        ensures
            final(self).wf(),
            match r {
                Ok(user) => old(self)@.create_user(username@, password_hash@, is_admin, now) == (
                    final(self)@,
                    Ok::<UserView, EngineError>(user@),
                ),
                Err(e) => old(self)@.create_user(username@, password_hash@, is_admin, now) == (
                    final(self)@,
                    Err::<UserView, EngineError>(e),
                ),
            },
    {
        proof {
            self.view_is();
            lemma_create_user_wf(self@, username@, password_hash@, is_admin, now);
        }
        if self.username_index(username).is_some() {
            return Err(EngineError::UsernameTaken);
        }
        if self.next_user_id == i64::MAX {
            return Err(EngineError::StoreFull);
        }
        let user = User {
            id: self.next_user_id,
            username: username.to_owned(),
            password_hash: password_hash.to_owned(),
            is_admin,
            created_at: now,
        };
        let copy = user.clone();
        self.users.push(user);
        self.next_user_id = self.next_user_id + 1;
        proof {
            self.view_is();
            assert(self@.users =~= old(self)@.users.push(user@));
        }
        Ok(copy)
    }

    /// All users, in the dictionary order of their names.
    pub fn get_all_users(&self) -> (r: Vec<User>)
        ensures
            is_ranking_of::<User>(user_views(r@), self@.users),
    {
        proof {
            self.view_is();
        }
        let mut out: Vec<User> = Vec::new();
        let mut i: usize = 0;
        while i < self.users.len()
            invariant
                i <= self.users.len(),
                out.len() == i,
                forall|k: int| 0 <= k < i ==> (#[trigger] out@[k])@ == self.users@[k]@,
            decreases self.users.len() - i,
        {
            out.push(self.users[i].clone());
            i += 1;
        }
        proof {
            assert(views_of(out@) =~= user_views(self.users@));
        }
        let sorted = sort_by_rank(out);
        proof {
            assert(views_of(sorted@) =~= user_views(sorted@));
        }
        sorted
    }

    /// All users, in the dictionary order of their names.
    pub fn list_users(&self) -> (r: Vec<User>)
        ensures
            is_ranking_of::<User>(user_views(r@), self@.users),
    {
        self.get_all_users()
    }

    /// All users without their credentials, in the dictionary order of
    /// their names, for an administrator; `Forbidden` for anyone else.
    pub fn list_all_users(&self, current_user: &UserInfo) -> (r: Result<Vec<UserInfo>, EngineError>)
        ensures
            match r {
                Ok(infos) => current_user.is_admin && is_ranking_of::<UserInfo>(
                    views_of(infos@),
                    self@.users.map_values(|u: UserView| u.info()),
                ),
                Err(e) => !current_user.is_admin && e == EngineError::Forbidden,
            },
    {
        if !current_user.is_admin {
            return Err(EngineError::Forbidden);
        }
        proof {
            self.view_is();
        }
        let mut out: Vec<UserInfo> = Vec::new();
        let mut i: usize = 0;
        while i < self.users.len()
            invariant
                i <= self.users.len(),
                out.len() == i,
                forall|k: int| 0 <= k < i ==> (#[trigger] out@[k])@ == self.users@[k]@.info(),
            decreases self.users.len() - i,
        {
            out.push(UserInfo::from(self.users[i].clone()));
            i += 1;
        }
        proof {
            assert(views_of(out@) =~= user_views(self.users@).map_values(
                |u: UserView| u.info(),
            ));
        }
        Ok(sort_by_rank(out))
    }

    /// How many polls the user created and how many votes the user cast.
    pub fn get_user_stats(&self, user_id: i64) -> (r: (i64, i64))
        requires
            self.wf(),
        ensures
            (r.0 as nat, r.1 as nat) == self@.user_stats(user_id),
            r.0 >= 0,
            r.1 >= 0,
    {
        proof {
            self.view_is();
            reveal(Seq::filter);
            assert(self@.polls.take(0) =~= Seq::<PollView>::empty());
            assert(self@.votes.take(0) =~= Seq::<Vote>::empty());
        }
        let mut polls_created: i64 = 0;
        let mut i: usize = 0;
        while i < self.polls.len()
            invariant
                i <= self.polls.len() <= i64::MAX,
                0 <= polls_created <= i,
                self@.polls == poll_views(self.polls@),
                polls_created == self@.polls.take(i as int).filter(created_by(user_id)).len(),
            decreases self.polls.len() - i,
        {
            proof {
                let p = self@.polls[i as int];
                assert(self@.polls.take(i as int + 1) =~= self@.polls.take(i as int).push(p));
                self@.polls.take(i as int).lemma_filter_push(p, created_by(user_id));
            }
            if self.polls[i].created_by == user_id {
                polls_created = polls_created + 1;
            }
            i += 1;
        }
        let mut votes_cast: i64 = 0;
        let mut j: usize = 0;
        while j < self.votes.len()
            invariant
                j <= self.votes.len() <= i64::MAX,
                0 <= votes_cast <= j,
                self@.votes == self.votes@,
                votes_cast == self@.votes.take(j as int).filter(voted_by(user_id)).len(),
            decreases self.votes.len() - j,
        {
            proof {
                let v = self@.votes[j as int];
                assert(self@.votes.take(j as int + 1) =~= self@.votes.take(j as int).push(v));
                self@.votes.take(j as int).lemma_filter_push(v, voted_by(user_id));
            }
            if self.votes[j].user_id == user_id {
                votes_cast = votes_cast + 1;
            }
            j += 1;
        }
        proof {
            assert(self@.polls.take(self@.polls.len() as int) =~= self@.polls);
            assert(self@.votes.take(self@.votes.len() as int) =~= self@.votes);
        }
        (polls_created, votes_cast)
    }

    /// Gives the user `user_id` the role that `set_admin` names, on behalf
    /// of the administrator `admin_id`.
    ///
    /// Fails with `Forbidden` where the two ids are the same, whatever the
    /// role of the acting user: nobody changes their own role. Fails with
    /// `UserNotFound` where no user has the id. A failed change leaves the
    /// store as it was.
    pub fn toggle_user_role(&mut self, user_id: i64, set_admin: bool, admin_id: i64) -> (r: Result<
        (),
        EngineError,
    >)
        requires
            old(self).wf(),
        ensures
            final(self).wf(),
            (final(self)@, r) == old(self)@.set_role(user_id, set_admin, admin_id),
            user_id == admin_id ==> r == Err::<(), EngineError>(EngineError::Forbidden)
                && final(self)@ == old(self)@,
    {
        proof {
            self.view_is();
        }
        if user_id == admin_id {
            return Err(EngineError::Forbidden);
        }
        let i = match self.user_index(user_id) {
            Some(i) => i,
            None => {
                return Err(EngineError::UserNotFound);
            },
        };
        proof {
            lemma_find_at(self@.users, i as int);
            lemma_user_replaced_wf(
                self@,
                user_id,
                UserView { is_admin: set_admin, ..self@.users[i as int] },
            );
        }
        self.users[i].is_admin = set_admin;
        proof {
            self.view_is();
            assert(self@.users =~= old(self)@.users.update(
                i as int,
                UserView { is_admin: set_admin, ..old(self)@.users[i as int] },
            ));
        }
        Ok(())
    }

    /// Replaces the stored hash of a user; `UserNotFound` where no user
    /// has the id.
    pub fn set_password_hash(&mut self, user_id: i64, password_hash: String) -> (r: Result<
        (),
        EngineError,
    >)
        requires
            old(self).wf(),
        ensures
            final(self).wf(),
            (final(self)@, r) == old(self)@.set_password_hash(user_id, password_hash@),
    {
        proof {
            self.view_is();
        }
        let i = match self.user_index(user_id) {
            Some(i) => i,
            None => {
                return Err(EngineError::UserNotFound);
            },
        };
        proof {
            lemma_find_at(self@.users, i as int);
            lemma_user_replaced_wf(
                self@,
                user_id,
                UserView { password_hash: password_hash@, ..self@.users[i as int] },
            );
        }
        self.users[i].password_hash = password_hash;
        proof {
            self.view_is();
            assert(self@.users =~= old(self)@.users.update(
                i as int,
                UserView { password_hash: password_hash@, ..old(self)@.users[i as int] },
            ));
        }
        Ok(())
    }
}

} // verus!
