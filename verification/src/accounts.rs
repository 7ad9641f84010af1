//! Accounts: logging in by name and password, registering, adding users,
//! changing a password, and the administrator that a store starts with.
//! Passwords are hashed and checked by bcrypt.
use crate::clock::Timestamp;
use crate::error::EngineError;
use crate::forms::{
    ChangePasswordForm, CreateUserRequest, LoginRequest, NewUserForm, RegisterRequest,
};
use crate::models::{User, UserInfo, UserInfoView, UserView};
use crate::password::{bcrypt_verdict, bcrypt_verify, password_matches};
use crate::rows::{find_id, index_of_id, lemma_find_at};
use crate::store::{user_views, Store, StoreState};
use crate::text::{is_blank, is_blank_text};
use crate::users::{lemma_create_user_wf, lemma_user_named_at};
use vstd::prelude::*;

verus! {

/// The name of the administrator that a store without one is given.
pub open spec fn default_admin_name() -> Seq<char> {
    "admin"@
}

/// What is wrong with the form for a new user, if anything: the name trims
/// to nothing; or the password does; or the password and its confirmation
/// differ. The checks are made in this order.
pub open spec fn new_user_form_fault(
    username: Seq<char>,
    password: Seq<char>,
    confirm_password: Seq<char>,
) -> Option<EngineError> {
    if is_blank(username) {
        Some(EngineError::EmptyUsername)
    } else if is_blank(password) {
        Some(EngineError::EmptyPassword)
    } else if password != confirm_password {
        Some(EngineError::PasswordMismatch)
    } else {
        None
    }
}

/// What is wrong with the form for a new password, if anything: the new
/// password trims to nothing, or it differs from its confirmation.
pub open spec fn password_form_fault(new_password: Seq<char>, confirm_password: Seq<char>)
    -> Option<EngineError> {
    if is_blank(new_password) {
        Some(EngineError::EmptyPassword)
    } else if new_password != confirm_password {
        Some(EngineError::PasswordMismatch)
    } else {
        None
    }
}

/// `after` is `before` with one more user: the new row has the next id,
/// the given name and role, and a hash that fits the password.
pub open spec fn user_added(
    before: StoreState,
    after: StoreState,
    username: Seq<char>,
    password: Seq<char>,
    is_admin: bool,
    now: Timestamp,
) -> bool {
    let user = after.users.last();
    &&& after.users.len() == before.users.len() + 1
    &&& user == before.new_user(username, user.password_hash, is_admin, now)
    &&& password_matches(password, user.password_hash)
    &&& after == before.with_user(user)
}

/// `after` is `before` with a new hash for the user, one that fits the
/// password.
pub open spec fn password_replaced(
    before: StoreState,
    after: StoreState,
    user_id: i64,
    password: Seq<char>,
) -> bool {
    match find_id(after.users, user_id) {
        Some(user) => password_matches(password, user.password_hash) && (after, Ok::<
            (),
            EngineError,
        >(())) == before.set_password_hash(user_id, user.password_hash),
        None => false,
    }
}

impl StoreState {
    /// What a login by name and password comes to: `UserNotFound` where
    /// nobody has the name, `InvalidCredentials` where the password does
    /// not fit the stored hash.
    pub open spec fn login(self, username: Seq<char>, password: Seq<char>) -> Result<
        UserView,
        EngineError,
    > {
        match self.user_named(username) {
            None => Err(EngineError::UserNotFound),
            Some(user) => if password_matches(password, user.password_hash) {
                Ok(user)
            } else {
                Err(EngineError::InvalidCredentials)
            },
        }
    }

    /// Why a change of password is refused before any hash is derived, if
    /// it is: the form is at fault; or no user has the id; or the current
    /// password of the form does not fit the stored hash. The checks are
    /// made in this order.
    pub open spec fn password_change_refusal(
        self,
        user_id: i64,
        current_password: Seq<char>,
        new_password: Seq<char>,
        confirm_password: Seq<char>,
    ) -> Option<EngineError> {
        match password_form_fault(new_password, confirm_password) {
            Some(fault) => Some(fault),
            None => match find_id(self.users, user_id) {
                None => Some(EngineError::UserNotFound),
                Some(user) => if !password_matches(current_password, user.password_hash) {
                    Some(EngineError::InvalidCredentials)
                } else {
                    None
                },
            },
        }
    }

    /// What a login with the credentials of a request comes to. An unknown
    /// name and a password that does not fit give the same answer,
    /// `InvalidCredentials`; a stored hash that cannot be checked gives
    /// `VerificationFailed`.
    pub open spec fn login_by_request(self, username: Seq<char>, password: Seq<char>) -> Result<
        UserInfoView,
        EngineError,
    > {
        match self.user_named(username) {
            None => Err(EngineError::InvalidCredentials),
            Some(user) => match bcrypt_verdict(password, user.password_hash) {
                None => Err(EngineError::VerificationFailed),
                Some(fits) => if fits {
                    Ok(user.info())
                } else {
                    Err(EngineError::InvalidCredentials)
                },
            },
        }
    }
}

/// The result of a login, once the user is found and the password has been
/// checked against the stored hash.
pub fn grant_login(user: &User, password_fits: bool) -> (r: Result<User, EngineError>)
    ensures
        match r {
            Ok(granted) => password_fits && granted@ == user@,
            Err(e) => !password_fits && e == EngineError::InvalidCredentials,
        },
{
    if password_fits {
        Ok(user.clone())
    } else {
        Err(EngineError::InvalidCredentials)
    }
}

/// The result of a login with the credentials of a request, once the user
/// is found and bcrypt has answered.
pub fn judge_login(user: &User, verdict: Result<bool, bcrypt::BcryptError>) -> (r: Result<
    UserInfo,
    EngineError,
>)
    ensures
        match verdict {
            Ok(fits) => if fits {
                r is Ok && r->Ok_0@ == user@.info()
            } else {
                r == Err::<UserInfo, EngineError>(EngineError::InvalidCredentials)
            },
            Err(_) => r == Err::<UserInfo, EngineError>(EngineError::VerificationFailed),
        },
{
    match verdict {
        Ok(fits) => {
            if fits {
                Ok(UserInfo::from(user.clone()))
            } else {
                Err(EngineError::InvalidCredentials)
            }
        },
        Err(_) => Err(EngineError::VerificationFailed),
    }
}

/// The error for a hash that could not be derived.
fn hashing_failed(failure: bcrypt::BcryptError) -> (e: EngineError)
    ensures
        e == EngineError::HashingFailed,
{
    EngineError::HashingFailed
}

/// Checks the form for a new user before anything is stored.
pub fn check_new_user_form(form: &NewUserForm) -> (r: Result<(), EngineError>)
    ensures
        r == match new_user_form_fault(form.username@, form.password@, form.confirm_password@) {
            Some(e) => Err::<(), EngineError>(e),
            None => Ok(()),
        },
{
    if is_blank_text(form.username.as_str()) {
        return Err(EngineError::EmptyUsername);
    }
    if is_blank_text(form.password.as_str()) {
        return Err(EngineError::EmptyPassword);
    }
    if !(form.password == form.confirm_password) {
        return Err(EngineError::PasswordMismatch);
    }
    Ok(())
}

/// Checks the form for a new password before anything is stored.
pub fn check_password_form(form: &ChangePasswordForm) -> (r: Result<(), EngineError>)
    ensures
        r == match password_form_fault(form.new_password@, form.confirm_password@) {
            Some(e) => Err::<(), EngineError>(e),
            None => Ok(()),
        },
{
    if is_blank_text(form.new_password.as_str()) {
        return Err(EngineError::EmptyPassword);
    }
    if !(form.new_password == form.confirm_password) {
        return Err(EngineError::PasswordMismatch);
    }
    Ok(())
}

impl Store {
    /// Admits a user by name and password, and gives the user's row.
    ///
    /// Fails with `UserNotFound` where nobody has the name and with
    /// `InvalidCredentials` where the password does not fit the stored
    /// hash.
    pub fn login_user(&self, username: &str, password: &str) -> (r: Result<User, EngineError>)
        requires
            self.wf(),
        ensures
            match r {
                Ok(user) => self@.login(username@, password@) == Ok::<UserView, EngineError>(
                    user@,
                ),
                Err(e) => self@.login(username@, password@) == Err::<UserView, EngineError>(e),
            },
    {
        proof {
            self.view_is();
        }
        match self.username_index(username) {
            Some(i) => {
                proof {
                    lemma_user_named_at(self@, i as int);
                }
                let fits = self.users[i].verify_password(password);
                grant_login(&self.users[i], fits)
            },
            None => Err(EngineError::UserNotFound),
        }
    }

    /// Admits the user of a login request and gives the user's identity.
    ///
    /// Fails with `InvalidCredentials` where nobody has the name or the
    /// password does not fit, and with `VerificationFailed` where the
    /// stored hash cannot be checked.
    pub fn login(&self, payload: &LoginRequest) -> (r: Result<UserInfo, EngineError>)
        requires
            self.wf(),
        ensures
            match r {
                Ok(info) => self@.login_by_request(payload.username@, payload.password@) == Ok::<
                    UserInfoView,
                    EngineError,
                >(info@),
                Err(e) => self@.login_by_request(payload.username@, payload.password@) == Err::<
                    UserInfoView,
                    EngineError,
                >(e),
            },
    {
        proof {
            self.view_is();
        }
        match self.username_index(payload.username.as_str()) {
            Some(i) => {
                proof {
                    lemma_user_named_at(self@, i as int);
                }
                let verdict = bcrypt_verify(
                    payload.password.as_str(),
                    self.users[i].password_hash.as_str(),
                );
                judge_login(&self.users[i], verdict)
            },
            None => Err(EngineError::InvalidCredentials),
        }
    }

    /// Stores a new user under the given name, with a fresh hash of the
    /// password.
    ///
    /// Fails with `UsernameTaken` exactly where the name is in use. For a
    /// free name the user is stored unless the hash cannot be derived
    /// (`HashingFailed`) or the ids have run out (`StoreFull`). A failure
    /// leaves the store as it was.
    pub fn add_user(
        &mut self,
        username: &str,
        password: &str,
        is_admin: bool,
        now: Timestamp,
    ) -> (r: Result<User, EngineError>)
        requires
            old(self).wf(),
        ensures
            final(self).wf(),
            (r == Err::<User, EngineError>(EngineError::UsernameTaken)) == old(
                self,
            )@.username_taken(username@),
            match r {
                Ok(user) => user_added(
                    old(self)@,
                    final(self)@,
                    username@,
                    password@,
                    is_admin,
                    now,
                ) && user@ == final(self)@.users.last(),
                Err(e) => final(self)@ == old(self)@ && (e == EngineError::UsernameTaken || e
                    == EngineError::HashingFailed || (e == EngineError::StoreFull && old(
                    self,
                )@.next_user_id == i64::MAX)),
            },
    {
        proof {
            self.view_is();
        }
        if self.username_index(username).is_some() {
            return Err(EngineError::UsernameTaken);
        }
        let hash = match User::hash_password(password) {
            Ok(hash) => hash,
            Err(failure) => {
                return Err(hashing_failed(failure));
            },
        };
        self.create_user(username, hash.as_str(), is_admin, now)
    }

    /// Registers a user without administrative rights and gives the new
    /// identity. Fails as [`Store::add_user`] does.
    pub fn register(&mut self, payload: &RegisterRequest, now: Timestamp) -> (r: Result<
        UserInfo,
        EngineError,
    >)
        requires
            old(self).wf(),
        ensures
            final(self).wf(),
            (r == Err::<UserInfo, EngineError>(EngineError::UsernameTaken)) == old(
                self,
            )@.username_taken(payload.username@),
            match r {
                Ok(info) => user_added(
                    old(self)@,
                    final(self)@,
                    payload.username@,
                    payload.password@,
                    false,
                    now,
                ) && info@ == final(self)@.users.last().info(),
                Err(e) => final(self)@ == old(self)@ && (e == EngineError::UsernameTaken || e
                    == EngineError::HashingFailed || (e == EngineError::StoreFull && old(
                    self,
                )@.next_user_id == i64::MAX)),
            },
    {
        match self.add_user(payload.username.as_str(), payload.password.as_str(), false, now) {
            Ok(user) => Ok(UserInfo::from(user)),
            Err(e) => Err(e),
        }
    }

    /// Stores the user that an administrator asks for and gives the new
    /// identity.
    ///
    /// Fails with `Forbidden` exactly where `current_user` is no
    /// administrator. The hash is derived before the name is looked up:
    /// where that fails the answer is `HashingFailed`, also for a name in
    /// use. Otherwise fails with `UsernameTaken` or `StoreFull` as
    /// [`Store::create_user`] does. A failure leaves the store as it was.
    pub fn create_new_user(
        &mut self,
        current_user: &UserInfo,
        payload: &CreateUserRequest,
        now: Timestamp,
    ) -> (r: Result<UserInfo, EngineError>)
        requires
            old(self).wf(),
        ensures
            final(self).wf(),
            (r == Err::<UserInfo, EngineError>(EngineError::Forbidden)) == !current_user.is_admin,
            match r {
                Ok(info) => user_added(
                    old(self)@,
                    final(self)@,
                    payload.username@,
                    payload.password@,
                    payload.is_admin,
                    now,
                ) && info@ == final(self)@.users.last().info(),
                Err(e) => final(self)@ == old(self)@ && (e == EngineError::Forbidden || e
                    == EngineError::HashingFailed || (e == EngineError::UsernameTaken && old(
                    self,
                )@.username_taken(payload.username@)) || (e == EngineError::StoreFull && old(
                    self,
                )@.next_user_id == i64::MAX)),
            },
    {
        if !current_user.is_admin {
            return Err(EngineError::Forbidden);
        }
        let hash = match User::hash_password(payload.password.as_str()) {
            Ok(hash) => hash,
            Err(failure) => {
                return Err(hashing_failed(failure));
            },
        };
        match self.create_user(payload.username.as_str(), hash.as_str(), payload.is_admin, now) {
            Ok(user) => Ok(UserInfo::from(user)),
            Err(e) => Err(e),
        }
    }

    /// Stores the user of the form by which an administrator adds one.
    ///
    /// Fails with `EmptyUsername`, `EmptyPassword` or `PasswordMismatch`
    /// where the form is at fault, the first fault found; else as
    /// [`Store::add_user`] does.
    pub fn add_user_controller(&mut self, form: &NewUserForm, now: Timestamp) -> (r: Result<
        User,
        EngineError,
    >)
        requires
            old(self).wf(),
        ensures
            final(self).wf(),
            match new_user_form_fault(form.username@, form.password@, form.confirm_password@) {
                Some(fault) => r == Err::<User, EngineError>(fault) && final(self)@ == old(self)@,
                None => {
                    &&& (r == Err::<User, EngineError>(EngineError::UsernameTaken)) == old(
                        self,
                    )@.username_taken(form.username@)
                    &&& match r {
                        Ok(user) => user_added(
                            old(self)@,
                            final(self)@,
                            form.username@,
                            form.password@,
                            form.is_admin,
                            now,
                        ) && user@ == final(self)@.users.last(),
                        Err(e) => final(self)@ == old(self)@ && (e == EngineError::UsernameTaken
                            || e == EngineError::HashingFailed || (e == EngineError::StoreFull
                            && old(self)@.next_user_id == i64::MAX)),
                    }
                },
            },
    {
        match check_new_user_form(form) {
            Err(fault) => Err(fault),
            Ok(()) => self.add_user(
                form.username.as_str(),
                form.password.as_str(),
                form.is_admin,
                now,
            ),
        }
    }

    /// Gives the user a new password.
    ///
    /// Fails with `EmptyPassword` or `PasswordMismatch` where the form is
    /// at fault; else with `UserNotFound` where no user has the id; else
    /// with `InvalidCredentials` where the current password of the form
    /// does not fit the stored hash. Past these checks the stored hash is
    /// replaced by a fresh hash of the new password, unless it cannot be
    /// derived (`HashingFailed`). A failure leaves the store as it was.
    pub fn change_password(&mut self, user_id: i64, form: &ChangePasswordForm) -> (r: Result<
        (),
        EngineError,
    >)
        requires
            old(self).wf(),
        ensures
            final(self).wf(),
            r is Err ==> final(self)@ == old(self)@,
            match password_form_fault(form.new_password@, form.confirm_password@) {
                Some(fault) => r == Err::<(), EngineError>(fault),
                None => match find_id(old(self)@.users, user_id) {
                    None => r == Err::<(), EngineError>(EngineError::UserNotFound),
                    Some(user) => if !password_matches(
                        form.current_password@,
                        user.password_hash,
                    ) {
                        r == Err::<(), EngineError>(EngineError::InvalidCredentials)
                    } else {
                        match r {
                            Ok(_) => password_replaced(
                                old(self)@,
                                final(self)@,
                                user_id,
                                form.new_password@,
                            ),
                            Err(e) => e == EngineError::HashingFailed,
                        }
                    },
                },
            },
    {
        proof {
            self.view_is();
        }
        match check_password_form(form) {
            Err(fault) => {
                return Err(fault);
            },
            Ok(()) => {},
        }
        let i = match self.user_index(user_id) {
            Some(i) => i,
            None => {
                return Err(EngineError::UserNotFound);
            },
        };
        proof {
            lemma_find_at(self@.users, i as int);
        }
        if !self.users[i].verify_password(form.current_password.as_str()) {
            return Err(EngineError::InvalidCredentials);
        }
        let hash = match User::hash_password(form.new_password.as_str()) {
            Ok(hash) => hash,
            Err(failure) => {
                return Err(hashing_failed(failure));
            },
        };
        let ghost fresh = hash@;
        let done = self.set_password_hash(user_id, hash);
        proof {
            let at = index_of_id(old(self)@.users, user_id);
            assert(self@.users[at].id == user_id);
            lemma_find_at(self@.users, at);
            assert(self@.users[at].password_hash == fresh);
        }
        done
    }

    /// Gives a store without an administrator the default one, named
    /// `admin` with the password `admin`, and says whether it did.
    ///
    /// A store that has an administrator stays as it is. Else fails with
    /// `UsernameTaken` where a user without administrative rights has the
    /// name, with `HashingFailed` or with `StoreFull`; a failure leaves the
    /// store as it was.
    pub fn init_default_admin(&mut self, now: Timestamp) -> (r: Result<bool, EngineError>)
        requires
            old(self).wf(),
        ensures
            final(self).wf(),
            old(self)@.has_admin() ==> r == Ok::<bool, EngineError>(false) && final(self)@ == old(
                self,
            )@,
            !old(self)@.has_admin() ==> match r {
                Ok(created) => created && user_added(
                    old(self)@,
                    final(self)@,
                    default_admin_name(),
                    default_admin_name(),
                    true,
                    now,
                ),
                Err(e) => final(self)@ == old(self)@ && ((e == EngineError::UsernameTaken && old(
                    self,
                )@.username_taken(default_admin_name())) || e == EngineError::HashingFailed || (e
                    == EngineError::StoreFull && old(self)@.next_user_id == i64::MAX)),
            },
    {
        proof {
            self.view_is();
        }
        let mut i: usize = 0;
        while i < self.users.len()
            invariant
                i <= self.users.len(),
                *self == *old(self),
                self.wf(),
                self@.users == user_views(self.users@),
                forall|k: int| 0 <= k < i ==> !(#[trigger] self@.users[k]).is_admin,
            decreases self.users.len() - i,
        {
            if self.users[i].is_admin {
                proof {
                    assert(self@.users[i as int].is_admin);
                }
                return Ok(false);
            }
            i += 1;
        }
        match self.add_user("admin", "admin", true, now) {
            Ok(_) => Ok(true),
            Err(e) => Err(e),
        }
    }
}

/// A user who has just been added can log in: the name and the password
/// that the user was added with are admitted, and the login gives the new
/// row.
pub proof fn law_added_user_can_log_in(
    before: StoreState,
    after: StoreState,
    username: Seq<char>,
    password: Seq<char>,
    is_admin: bool,
    now: Timestamp,
)
    requires
        before.wf(),
        !before.username_taken(username),
        before.next_user_id < i64::MAX,
        user_added(before, after, username, password, is_admin, now),
    ensures
        after.wf(),
        after.login(username, password) == Ok::<UserView, EngineError>(after.users.last()),
        after.login_by_request(username, password) == Ok::<UserInfoView, EngineError>(
            after.users.last().info(),
        ),
{
    let user = after.users.last();
    lemma_create_user_wf(before, username, user.password_hash, is_admin, now);
    assert(after.users[after.users.len() - 1] == user);
    lemma_user_named_at(after, after.users.len() - 1);
}

} // verus!
