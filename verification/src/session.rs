//! Sessions: the login cookie that names the user of a request, the
//! claims of a bearer token, and the guards that turn either into an
//! identity of the store.
use crate::accounts::password_replaced;
use crate::decimal::{decimal, parse_decimal, parsed_i64, to_decimal};
use crate::error::EngineError;
use crate::forms::{ChangePasswordForm, FlashMessage, LoginForm, MessageType, ToggleRoleForm};
use crate::metrics::{
    increment_failed_login, increment_login_attempt, increment_successful_login, Metrics,
    MetricsView, bumped,
};
use crate::models::{User, UserInfo, UserInfoView, UserView};
use crate::rows::find_id;
use crate::store::{Store, StoreState};
use vstd::prelude::*;

verus! {

/// The name of the login cookie.
pub const LOGIN_COOKIE: &'static str = "user_id";

/// The private cookies of a request, as far as the engine reads and
/// writes them: the value of the login cookie, if the cookie is set.
pub struct SessionJar {
    login: Option<String>,
}

impl View for SessionJar {
    type V = Option<Seq<char>>;

    closed spec fn view(&self) -> Option<Seq<char>> {
        match self.login {
            Some(value) => Some(value@),
            None => None,
        }
    }
}

impl SessionJar {
    /// A jar without the login cookie.
    pub fn new() -> (jar: SessionJar)
        ensures
            jar@ is None,
    {
        SessionJar { login: None }
    }

    /// A jar in which the login cookie has the given value.
    pub fn with_login(value: String) -> (jar: SessionJar)
        ensures
            jar@ == Some(value@),
    {
        SessionJar { login: Some(value) }
    }

    /// The value of the login cookie.
    pub fn login_value(&self) -> (r: Option<String>)
        ensures
            match r {
                Some(value) => self@ == Some(value@),
                None => self@ is None,
            },
    {
        match &self.login {
            Some(value) => Some(value.clone()),
            None => None,
        }
    }
}

/// A user whom the session of a request names.
#[derive(Debug, PartialEq, Eq)]
pub struct AuthenticatedUser {
    pub user: User,
}

/// An administrator whom the session of a request names.
#[derive(Debug, PartialEq, Eq)]
pub struct AdminUser {
    pub user: User,
}

/// The user that the login cookie names: the cookie is set, its value is
/// the decimal text of an id, and a user of the store has the id.
pub open spec fn session_user(s: StoreState, cookie: Option<Seq<char>>) -> Option<UserView> {
    match cookie {
        Some(value) => match parsed_i64(value) {
            Some(id) => find_id(s.users, id),
            None => None,
        },
        None => None,
    }
}

/// The jar after the guard has looked at it: a cookie that names an id
/// which no user has is taken out; every other jar stays.
pub open spec fn jar_after_guard(s: StoreState, cookie: Option<Seq<char>>) -> Option<Seq<char>> {
    match cookie {
        Some(value) => match parsed_i64(value) {
            Some(id) => if find_id(s.users, id) is None {
                None
            } else {
                cookie
            },
            None => cookie,
        },
        None => cookie,
    }
}

/// Sets the login cookie to the decimal text of the user's id.
pub fn set_login_cookie(cookies: &mut SessionJar, user_id: i64)
    ensures
        final(cookies)@ == Some(decimal(user_id as int)),
{
    cookies.login = Some(to_decimal(user_id));
}

/// Takes the login cookie out, which ends the session.
pub fn clear_login_cookie(cookies: &mut SessionJar)
    ensures
        final(cookies)@ is None,
{
    cookies.login = None;
}

/// Logs the user out: the login cookie goes, and the user is told so.
pub fn logout_controller(cookies: &mut SessionJar) -> (flash: FlashMessage)
    ensures
        final(cookies)@ is None,
        flash.message_type == MessageType::Success,
        flash.message@ == "You have been logged out."@,
{
    clear_login_cookie(cookies);
    FlashMessage::success("You have been logged out.")
}

/// Logs a user in by the login form: a user who is admitted gets the
/// login cookie; for anyone else the jar stays as it was.
pub fn login_controller(store: &Store, form: &LoginForm, cookies: &mut SessionJar) -> (r: Result<
    User,
    EngineError,
>)
    requires
        store.wf(),
    ensures
        match r {
            Ok(user) => store@.login(form.username@, form.password@) == Ok::<
                UserView,
                EngineError,
            >(user@) && final(cookies)@ == Some(decimal(user.id as int)),
            Err(e) => store@.login(form.username@, form.password@) == Err::<UserView, EngineError>(
                e,
            ) && final(cookies)@ == old(cookies)@,
        },
{
    match store.login_user(form.username.as_str(), form.password.as_str()) {
        Ok(user) => {
            set_login_cookie(cookies, user.id);
            Ok(user)
        },
        Err(e) => Err(e),
    }
}

/// Handles the login form and counts the attempt: one more attempt, and
/// one more success or one more failure, whichever it was.
pub fn login_post(
    store: &Store,
    metrics: &mut Metrics,
    form: &LoginForm,
    cookies: &mut SessionJar,
) -> (r: Result<User, EngineError>)
    requires
        store.wf(),
        old(metrics).wf(),
    ensures
        final(metrics).wf(),
        match r {
            Ok(user) => store@.login(form.username@, form.password@) == Ok::<
                UserView,
                EngineError,
            >(user@) && final(cookies)@ == Some(decimal(user.id as int)) && final(metrics)@ == (
                MetricsView {
                    login_attempts: bumped(old(metrics)@.login_attempts),
                    successful_logins: bumped(old(metrics)@.successful_logins),
                    ..old(metrics)@
                }),
            Err(e) => store@.login(form.username@, form.password@) == Err::<UserView, EngineError>(
                e,
            ) && final(cookies)@ == old(cookies)@ && final(metrics)@ == (MetricsView {
                login_attempts: bumped(old(metrics)@.login_attempts),
                failed_logins: bumped(old(metrics)@.failed_logins),
                ..old(metrics)@
            }),
        },
{
    increment_login_attempt(metrics);
    let result = login_controller(store, form, cookies);
    match &result {
        Ok(_) => increment_successful_login(metrics),
        Err(_) => increment_failed_login(metrics),
    }
    result
}

/// The guard of routes for users who are logged in.
///
/// Gives the user that the login cookie names. Fails with
/// `NotAuthenticated` where the cookie is not set, where its value is no
/// id, and where no user has the id; in the last case the stale cookie is
/// taken out.
pub fn authenticated_user(store: &Store, cookies: &mut SessionJar) -> (r: Result<
    AuthenticatedUser,
    EngineError,
>)
    requires
        store.wf(),
    ensures
        final(cookies)@ == jar_after_guard(store@, old(cookies)@),
        match r {
            Ok(guard) => session_user(store@, old(cookies)@) == Some(guard.user@),
            Err(e) => session_user(store@, old(cookies)@) is None && e
                == EngineError::NotAuthenticated,
        },
{
    let user_id = match &cookies.login {
        Some(value) => parse_decimal(value.as_str()),
        None => None,
    };
    match user_id {
        Some(id) => match store.get_user_by_id(id) {
            Some(user) => Ok(AuthenticatedUser { user }),
            None => {
                clear_login_cookie(cookies);
                Err(EngineError::NotAuthenticated)
            },
        },
        None => Err(EngineError::NotAuthenticated),
    }
}

/// The guard of routes for administrators.
///
/// Gives the user that the login cookie names if the user is an
/// administrator, and fails with `Forbidden` for every other request. The
/// jar is treated as by [`authenticated_user`].
pub fn admin_user(store: &Store, cookies: &mut SessionJar) -> (r: Result<AdminUser, EngineError>)
    requires
        store.wf(),
    ensures
        final(cookies)@ == jar_after_guard(store@, old(cookies)@),
        match r {
            Ok(guard) => session_user(store@, old(cookies)@) == Some(guard.user@)
                && guard.user.is_admin,
            Err(e) => e == EngineError::Forbidden && match session_user(store@, old(cookies)@) {
                Some(user) => !user.is_admin,
                None => true,
            },
        },
{
    match authenticated_user(store, cookies) {
        Ok(guard) => {
            if guard.user.is_admin {
                Ok(AdminUser { user: guard.user })
            } else {
                Err(EngineError::Forbidden)
            }
        },
        Err(_) => Err(EngineError::Forbidden),
    }
}

impl AuthenticatedUser {
    /// The identity of the user, without the credential.
    pub open spec fn identity(self) -> UserInfoView {
        self.user@.info()
    }

    /// The identity of the user, without the credential.
    pub fn to_identity(&self) -> (r: UserInfo)
        ensures
            r@ == self.identity(),
    {
        UserInfo::from(self.user.clone())
    }
}

/// Changes the role of the user that the form names, on behalf of the
/// administrator of the session. Fails as [`Store::toggle_user_role`]
/// does: an administrator cannot change their own role.
pub fn toggle_user_role(store: &mut Store, admin: &AdminUser, form: &ToggleRoleForm) -> (r: Result<
    (),
    EngineError,
>)
    requires
        old(store).wf(),
    ensures
        final(store).wf(),
        (final(store)@, r) == old(store)@.set_role(form.user_id, form.set_admin, admin.user.id),
{
    store.toggle_user_role(form.user_id, form.set_admin, admin.user.id)
}

/// Deletes the poll on behalf of the user of the session. Fails as
/// [`Store::delete_poll`] does.
pub fn delete_poll(store: &mut Store, poll_id: i64, user: &AuthenticatedUser) -> (r: Result<
    (),
    EngineError,
>)
    requires
        old(store).wf(),
    ensures
        final(store).wf(),
        (final(store)@, r) == old(store)@.delete_poll(poll_id, user.identity()),
{
    store.delete_poll(poll_id, &user.to_identity())
}

/// Gives the user of the session a new password.
///
/// Fails with `EmptyPassword` or `PasswordMismatch` where the form is at
/// fault; else with `UserNotFound` where the user of the session is no
/// longer in the store; else with `InvalidCredentials` where the current
/// password of the form does not fit the stored hash. Past these checks
/// the stored hash is replaced by a fresh hash of the new password, unless
/// it cannot be derived (`HashingFailed`). A failure leaves the store as
/// it was.
pub fn change_password(
    store: &mut Store,
    user: &AuthenticatedUser,
    form: &ChangePasswordForm,
) -> (r: Result<(), EngineError>)
    requires
        old(store).wf(),
    ensures
        final(store).wf(),
        r is Err ==> final(store)@ == old(store)@,
        match old(store)@.password_change_refusal(
            user.user.id,
            form.current_password@,
            form.new_password@,
            form.confirm_password@,
        ) {
            Some(refusal) => r == Err::<(), EngineError>(refusal),
            None => match r {
                Ok(_) => password_replaced(
                    old(store)@,
                    final(store)@,
                    user.user.id,
                    form.new_password@,
                ),
                Err(e) => e == EngineError::HashingFailed,
            },
        },
{
    store.change_password(user.user.id, form)
}

/// The claims of a session token.
#[derive(Debug, PartialEq, Eq)]
pub struct Claims {
    /// The subject: the decimal text of the user's id.
    pub sub: String,
    pub username: String,
    pub is_admin: bool,
    /// When the token expires, in seconds since the epoch.
    pub exp: i64,
    /// When the token was issued, in seconds since the epoch.
    pub iat: i64,
}

/// The mathematical view of a [`Claims`].
pub struct ClaimsView {
    pub sub: Seq<char>,
    pub username: Seq<char>,
    pub is_admin: bool,
    pub exp: i64,
    pub iat: i64,
}

impl View for Claims {
    type V = ClaimsView;

    open spec fn view(&self) -> ClaimsView {
        ClaimsView {
            sub: self.sub@,
            username: self.username@,
            is_admin: self.is_admin,
            exp: self.exp,
            iat: self.iat,
        }
    }
}

/// How long a token is good for: a day, in seconds.
pub const TOKEN_LIFETIME_SECS: i64 = 86400;

/// The scheme that an authorization header has to begin with.
pub open spec fn bearer_prefix() -> Seq<char> {
    seq!['B', 'e', 'a', 'r', 'e', 'r', ' ']
}

/// The paths that need no user.
pub open spec fn is_open_path(path: Seq<char>) -> bool {
    path == "/api/health"@ || path == "/api/metrics"@ || path == "/api/login"@ || path
        == "/api/register"@
}

/// What becomes of a request before its token is looked into.
#[derive(Debug, PartialEq, Eq)]
pub enum Screening {
    /// The request is turned away as unauthorized.
    Rejected,
    /// The request goes on without a user.
    Open,
    /// The request goes on if the token proves to be good.
    Token(String),
}

/// What becomes of a request, by its header and path. A request without an
/// authorization header, or with one of another scheme, is turned away,
/// whatever its path; past that, an open path goes on as it is, and every
/// other path waits on the token, which is the header after the scheme.
pub open spec fn screening_of(authorization: Option<Seq<char>>, path: Seq<char>) -> Option<
    Option<Seq<char>>,
> {
    match authorization {
        None => None,
        Some(header) => if header.len() >= 7 && header.take(7) == bearer_prefix() {
            if is_open_path(path) {
                Some(None)
            } else {
                Some(Some(header.skip(7)))
            }
        } else {
            None
        },
    }
}

/// The user that the claims of a token name: the one whose id the subject
/// spells; a subject that spells no id stands for the id 0.
pub open spec fn claimed_user(s: StoreState, claims: ClaimsView) -> Option<UserView> {
    find_id(
        s.users,
        match parsed_i64(claims.sub) {
            Some(id) => id,
            None => 0,
        },
    )
}

/// The claims of a token issued to the user at `now_secs`, good for a
/// day.
pub fn token_claims(user: &User, now_secs: i64) -> (claims: Claims)
    requires
        now_secs + TOKEN_LIFETIME_SECS <= i64::MAX,
    ensures
        claims@ == (ClaimsView {
            sub: decimal(user.id as int),
            username: user@.username,
            is_admin: user.is_admin,
            exp: (now_secs + TOKEN_LIFETIME_SECS) as i64,
            iat: now_secs,
        }),
{
    Claims {
        sub: to_decimal(user.id),
        username: user.username.clone(),
        is_admin: user.is_admin,
        exp: now_secs + TOKEN_LIFETIME_SECS,
        iat: now_secs,
    }
}

/// Whether the path needs no user.
pub fn path_is_open(path: &str) -> (r: bool)
    ensures
        r == is_open_path(path@),
{
    crate::store::same_text(path, "/api/health") || crate::store::same_text(path, "/api/metrics")
        || crate::store::same_text(path, "/api/login") || crate::store::same_text(
        path,
        "/api/register",
    )
}

/// Screens a request by its authorization header and its path.
pub fn screen_request(authorization: Option<&str>, path: &str) -> (r: Screening)
    ensures
        match r {
            Screening::Rejected => screening_of(
                match authorization {
                    Some(header) => Some(header@),
                    None => None,
                },
                path@,
            ) is None,
            Screening::Open => screening_of(
                match authorization {
                    Some(header) => Some(header@),
                    None => None,
                },
                path@,
            ) == Some(None::<Seq<char>>),
            Screening::Token(token) => screening_of(
                match authorization {
                    Some(header) => Some(header@),
                    None => None,
                },
                path@,
            ) == Some(Some(token@)),
        },
{
    let header = match authorization {
        Some(header) => header,
        None => {
            return Screening::Rejected;
        },
    };
    let chars = crate::text::chars_of(header);
    if chars.len() < 7 {
        return Screening::Rejected;
    }
    let scheme_fits = chars[0] == 'B' && chars[1] == 'e' && chars[2] == 'a' && chars[3] == 'r'
        && chars[4] == 'e' && chars[5] == 'r' && chars[6] == ' ';
    proof {
        if scheme_fits {
            assert(header@.take(7) =~= bearer_prefix());
        } else {
            assert(header@.take(7) != bearer_prefix()) by {
                let lead = header@.take(7);
                assert(lead[0] == header@[0] && lead[1] == header@[1] && lead[2] == header@[2]
                    && lead[3] == header@[3] && lead[4] == header@[4] && lead[5] == header@[5]
                    && lead[6] == header@[6]);
            }
        }
    }
    if !scheme_fits {
        return Screening::Rejected;
    }
    if path_is_open(path) {
        return Screening::Open;
    }
    let token = header.substring_char(7, chars.len()).to_owned();
    proof {
        assert(header@.subrange(7, header@.len() as int) =~= header@.skip(7));
    }
    Screening::Token(token)
}

/// The identity of the user that the claims of a good token name;
/// `NotAuthenticated` where no user of the store has the id.
pub fn authorize(store: &Store, claims: &Claims) -> (r: Result<UserInfo, EngineError>)
    requires
        store.wf(),
    ensures
        match r {
            Ok(info) => claimed_user(store@, claims@) matches Some(user) && info@ == user.info(),
            Err(e) => claimed_user(store@, claims@) is None && e == EngineError::NotAuthenticated,
        },
{
    let user_id = match parse_decimal(claims.sub.as_str()) {
        Some(id) => id,
        None => 0,
    };
    match store.get_user_by_id(user_id) {
        Some(user) => Ok(UserInfo::from(user)),
        None => Err(EngineError::NotAuthenticated),
    }
}

} // verus!
