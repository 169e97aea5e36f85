//! Logging in through the identity provider, and logging out.
//!
//! A login attempt is a state machine: it is handed what the user agent,
//! the provider and the user directory brought, and answers with the next
//! thing to do.

use crate::auth::auth0::{build_random_state, decode_and_validate, get_or_create_user,
    is_alphanumeric, is_new_user, live_session, token_verified, AuthParameters, IdToken, Session,
    SessionDB, TokenRequest, TokenResponse, UserResolution, VerifyError, STATE_LENGTH};
use crate::day::Day;
use crate::db::models::{NewUser, User};
use crate::routes::health::{Redirect, Status};
use crate::text::same_text;
use vstd::prelude::*;
use vstd::string::StringExecFns;

verus! {

/// How far a login attempt has come, or how it failed.
#[derive(Clone, Copy, Debug, PartialEq, Eq, Structural)]
pub enum LoginState {
    AwaitingRedirect,
    AwaitingCallback,
    TokenExchangePending,
    Verified,
    SessionIssued,
    Forbidden,
    BadRequest,
    Unauthorized,
    InternalError,
}

impl LoginState {
    /// Whether the attempt is over.
    pub open spec fn spec_is_final(self) -> bool {
        self == LoginState::SessionIssued || self == LoginState::Forbidden || self
            == LoginState::BadRequest || self == LoginState::Unauthorized || self
            == LoginState::InternalError
    }

    /// Whether the attempt is over.
    pub fn is_final(&self) -> (b: bool)
        ensures
            b == self.spec_is_final(),
    {
        match self {
            LoginState::SessionIssued
            | LoginState::Forbidden
            | LoginState::BadRequest
            | LoginState::Unauthorized
            | LoginState::InternalError => true,
            _ => false,
        }
    }
}

/// The cookie that carries the session token.
#[derive(Debug)]
pub struct SessionCookie {
    pub name: String,
    pub value: String,
    pub path: String,
    pub http_only: bool,
    pub secure: bool,
}

/// What a login attempt asks for next.
#[derive(Debug)]
pub enum LoginAction {
    /// Set the anti-forgery cookie and send the user agent to the provider.
    Redirect { state: String, location: String },
    /// Drop the anti-forgery cookie and post the request to the provider's
    /// token endpoint.
    ExchangeCode { url: String, request: TokenRequest },
    /// Look the subject up in the user directory.
    FindUser { auth_id: String },
    /// Insert the user into the user directory.
    CreateUser(NewUser),
    /// Set the session cookie, record the login of the user and send the
    /// user agent to the landing page.
    Establish { cookie: SessionCookie, auth_id: String, location: String },
    /// Answer with an error.
    Reject(Status),
    /// The attempt is over.
    Nothing,
}

/// What the user agent, the provider or the user directory brought.
#[derive(Debug)]
pub enum LoginEvent {
    /// The user agent asks to log in.
    Start,
    /// The provider sent the user agent back: the anti-forgery cookie, if
    /// the request has one, and the `state` and `code` of the query.
    Callback { cookie: Option<String>, state: String, code: String },
    /// The token endpoint answered.
    Tokens(TokenResponse),
    /// The token endpoint could not be reached or did not answer with tokens.
    ExchangeFailed,
    /// The user directory holds this user for the subject.
    UserFound(User),
    /// The user directory holds no user for the subject.
    UserMissing,
    /// The user directory inserted this user.
    UserCreated(User),
    /// The insert met a user of the same subject.
    UserConflict,
    /// The user directory failed.
    StorageFailed,
}

/// A login attempt.
#[derive(Debug)]
pub struct LoginFlow {
    pub state: LoginState,
    /// Whether session cookies are marked secure.
    pub secure: bool,
    /// The verified claims, from verification on.
    pub claims: Option<IdToken>,
    /// Whether the creation of the user was asked for.
    pub creating: bool,
}

/// Trusted: `uuid::Uuid::new_v4` and its `to_string`: a random UUID in
/// hyphenated form, which has 36 characters.
#[verifier::external_body]
fn fresh_token() -> (token: String)
    ensures
        token@.len() == 36,
{
    uuid::Uuid::new_v4().to_string()
}

/// Whether `cookie` is the session cookie for `token`.
pub open spec fn is_session_cookie(cookie: SessionCookie, token: Seq<char>, secure: bool) -> bool {
    &&& cookie.name@ == "session"@
    &&& cookie.value@ == token
    &&& cookie.path@ == "/"@
    &&& cookie.http_only
    &&& cookie.secure == secure
}

/// Whether `session` is the session of `user` under `claims`.
pub open spec fn is_session_of(session: Session, claims: IdToken, user: User) -> bool {
    &&& session.block_count == user.block_count
    &&& session.email == claims.email
    &&& session.expires == claims.exp
    &&& session.given_name == claims.given_name
    &&& session.key_present == user.key_present
    &&& session.nickname == claims.nickname
    &&& session.picture == claims.picture
    &&& session.user_id == user.auth_id
}

/// The attempt fails with `state`, answered with `status`.
pub open spec fn rejects(
    pre: LoginFlow,
    post: LoginFlow,
    action: LoginAction,
    state: LoginState,
    status: Status,
) -> bool {
    post == (LoginFlow { state, ..pre }) && action == LoginAction::Reject(status)
}

/// How the callback is decided: without the anti-forgery cookie it is a bad
/// request, with another state than the cookie's it is forbidden, else the
/// code is exchanged.
pub open spec fn takes_callback(
    pre: LoginFlow,
    settings: AuthParameters,
    cookie: Option<String>,
    state: String,
    code: String,
    post: LoginFlow,
    action: LoginAction,
) -> bool {
    match cookie {
        None => rejects(pre, post, action, LoginState::BadRequest, Status::BadRequest),
        Some(expected) => if expected@ != state@ {
            rejects(pre, post, action, LoginState::Forbidden, Status::Forbidden)
        } else {
            &&& post == (LoginFlow { state: LoginState::TokenExchangePending, ..pre })
            &&& action matches LoginAction::ExchangeCode { url, request }
            &&& url@ == settings.spec_token_url()
            &&& request.grant_type@ == "authorization_code"@
            &&& request.client_id == settings.client_id
            &&& request.client_secret == settings.client_secret
            &&& request.code@ == code@
            &&& request.redirect_uri == settings.redirect_url
        },
    }
}

/// How the verdict on the identity token is taken: rejected claims end the
/// attempt as unauthorized, accepted claims are kept and their subject is
/// looked up.
pub open spec fn takes_verdict(
    pre: LoginFlow,
    verdict: Result<IdToken, VerifyError>,
    post: LoginFlow,
    action: LoginAction,
) -> bool {
    match verdict {
        Err(_) => rejects(pre, post, action, LoginState::Unauthorized, Status::Unauthorized),
        Ok(claims) => {
            &&& post == (LoginFlow {
                state: LoginState::Verified,
                claims: Some(claims),
                creating: false,
                ..pre
            })
            &&& action == LoginAction::FindUser { auth_id: claims.sub }
        },
    }
}

/// How the session of `user` is issued: it is stored under a fresh token,
/// which the session cookie carries.
pub open spec fn issues_session(
    pre: LoginFlow,
    sessions: Map<Seq<char>, Session>,
    user: User,
    post: LoginFlow,
    after: Map<Seq<char>, Session>,
    action: LoginAction,
) -> bool {
    &&& pre.claims is Some
    &&& post.state == LoginState::SessionIssued
    &&& post.claims is None
    &&& post == (LoginFlow { state: post.state, claims: post.claims, ..pre })
    &&& action matches LoginAction::Establish { cookie, auth_id, location }
    &&& is_session_cookie(cookie, cookie.value@, pre.secure)
    &&& cookie.value@.len() == 36
    &&& auth_id == user.auth_id
    &&& location@ == "http://localhost:8080/user"@
    &&& after.contains_key(cookie.value@)
    &&& is_session_of(after[cookie.value@], pre.claims.unwrap(), user)
    &&& after == sessions.insert(cookie.value@, after[cookie.value@])
}

/// The transitions of a login attempt: what `post`, the sessions `after`
/// and `action` follow from `pre`, the `sessions` and `event`.
pub open spec fn login_steps(
    pre: LoginFlow,
    event: LoginEvent,
    settings: AuthParameters,
    sessions: Map<Seq<char>, Session>,
    now: i64,
    today: Day,
    post: LoginFlow,
    after: Map<Seq<char>, Session>,
    action: LoginAction,
) -> bool {
    if pre.state.spec_is_final() {
        post == pre && after == sessions && action == LoginAction::Nothing
    } else {
        match (pre.state, event) {
            (LoginState::AwaitingRedirect, LoginEvent::Start) => {
                &&& after == sessions
                &&& post == (LoginFlow { state: LoginState::AwaitingCallback, ..pre })
                &&& action matches LoginAction::Redirect { state, location }
                &&& state@.len() == STATE_LENGTH
                &&& forall|i: int| 0 <= i < state@.len() ==> is_alphanumeric(#[trigger] state@[i])
                &&& location@ == settings.spec_authorize_url(state@)
            },
            (LoginState::AwaitingCallback, LoginEvent::Callback { cookie, state, code }) => {
                after == sessions && takes_callback(pre, settings, cookie, state, code, post, action)
            },
            (LoginState::TokenExchangePending, LoginEvent::Tokens(tokens)) => {
                &&& after == sessions
                &&& exists|verdict: Result<IdToken, VerifyError>|
                    {
                        &&& #[trigger] takes_verdict(pre, verdict, post, action)
                        &&& token_verified(
                            verdict,
                            settings.client_id@,
                            settings.auth0_domain@,
                            tokens.id_token@,
                            settings.client_secret@,
                            now,
                        )
                    }
            },
            (LoginState::Verified, LoginEvent::UserFound(user)) => if pre.claims is None {
                after == sessions && rejects(
                    pre,
                    post,
                    action,
                    LoginState::InternalError,
                    Status::InternalServerError,
                )
            } else {
                issues_session(pre, sessions, user, post, after, action)
            },
            (LoginState::Verified, LoginEvent::UserCreated(user)) => if pre.claims is None
                || !pre.creating {
                after == sessions && rejects(
                    pre,
                    post,
                    action,
                    LoginState::InternalError,
                    Status::InternalServerError,
                )
            } else {
                issues_session(pre, sessions, user, post, after, action)
            },
            (LoginState::Verified, LoginEvent::UserMissing) => {
                &&& after == sessions
                &&& if pre.claims is None || pre.creating {
                    rejects(
                        pre,
                        post,
                        action,
                        LoginState::InternalError,
                        Status::InternalServerError,
                    )
                } else {
                    &&& post == (LoginFlow { creating: true, ..pre })
                    &&& action matches LoginAction::CreateUser(user)
                    &&& is_new_user(user, pre.claims.unwrap().sub@, now, today)
                }
            },
            (LoginState::Verified, LoginEvent::UserConflict) => {
                &&& after == sessions
                &&& if pre.claims is None || !pre.creating {
                    rejects(
                        pre,
                        post,
                        action,
                        LoginState::InternalError,
                        Status::InternalServerError,
                    )
                } else {
                    post == pre && action == (LoginAction::FindUser {
                        auth_id: pre.claims.unwrap().sub,
                    })
                }
            },
            _ => after == sessions && rejects(
                pre,
                post,
                action,
                LoginState::InternalError,
                Status::InternalServerError,
            ),
        }
    }
}

impl LoginAction {
    /// The status of the answer, where the action answers the request.
    pub open spec fn spec_response_status(self) -> Option<Status> {
        match self {
            LoginAction::Redirect { .. } => Some(Status::SeeOther),
            LoginAction::Establish { .. } => Some(Status::SeeOther),
            LoginAction::Reject(status) => Some(status),
            _ => None,
        }
    }

    /// The status of the answer, where the action answers the request: 303
    /// for a redirect, the error's status for a rejection.
    pub fn response_status(&self) -> (r: Option<Status>)
        ensures
            r == self.spec_response_status(),
    {
        match self {
            LoginAction::Redirect { .. } => Some(Status::SeeOther),
            LoginAction::Establish { .. } => Some(Status::SeeOther),
            LoginAction::Reject(status) => Some(*status),
            _ => None,
        }
    }
}

impl LoginFlow {
    /// A login attempt that has not begun.
    pub fn new(secure: bool) -> (flow: LoginFlow)
        ensures
            flow == (LoginFlow {
                state: LoginState::AwaitingRedirect,
                secure,
                claims: None,
                creating: false,
            }),
    {
        LoginFlow { state: LoginState::AwaitingRedirect, secure, claims: None, creating: false }
    }

    /// A login attempt whose user agent was sent to the provider.
    pub fn awaiting_callback(secure: bool) -> (flow: LoginFlow)
        ensures
            flow == (LoginFlow {
                state: LoginState::AwaitingCallback,
                secure,
                claims: None,
                creating: false,
            }),
    {
        LoginFlow { state: LoginState::AwaitingCallback, secure, claims: None, creating: false }
    }

    /// Ends the attempt in `state`, answered with `status`.
    fn reject(&mut self, state: LoginState, status: Status) -> (action: LoginAction)
        ensures
            rejects(*old(self), *final(self), action, state, status),
    {
        self.state = state;
        LoginAction::Reject(status)
    }

    /// Decides the callback of the provider.
    pub fn take_callback(
        &mut self,
        settings: &AuthParameters,
        cookie: Option<String>,
        state: String,
        code: String,
    ) -> (action: LoginAction)
        ensures
            takes_callback(*old(self), *settings, cookie, state, code, *final(self), action),
    {
        match cookie {
            None => self.reject(LoginState::BadRequest, Status::BadRequest),
            Some(expected) => {
                if !same_text(expected.as_str(), state.as_str()) {
                    return self.reject(LoginState::Forbidden, Status::Forbidden);
                }
                let request = settings.build_token_request(code.as_str());
                let url = settings.build_token_url();
                self.state = LoginState::TokenExchangePending;
                LoginAction::ExchangeCode { url, request }
            },
        }
    }

    /// Takes the verdict on the identity token.
    pub fn take_verdict(&mut self, verdict: Result<IdToken, VerifyError>) -> (action: LoginAction)
        ensures
            takes_verdict(*old(self), verdict, *final(self), action),
    {
        match verdict {
            Err(_) => self.reject(LoginState::Unauthorized, Status::Unauthorized),
            Ok(claims) => {
                let auth_id = claims.sub.clone();
                self.claims = Some(claims);
                self.creating = false;
                self.state = LoginState::Verified;
                LoginAction::FindUser { auth_id }
            },
        }
    }

    /// Issues the session of `user` under the verified claims.
    fn issue_session(&mut self, sessions: &mut SessionDB, user: User) -> (action: LoginAction)
        requires
            old(self).claims is Some,
        ensures
            issues_session(*old(self), old(sessions)@, user, *final(self), final(sessions)@, action),
    {
        let claims = match self.claims.take() {
            Some(claims) => claims,
            None => {
                return LoginAction::Nothing;
            },
        };
        let session = Session::issue(claims, &user);
        let token = fresh_token();
        let cookie = SessionCookie {
            name: String::from_str("session"),
            value: token.clone(),
            path: String::from_str("/"),
            http_only: true,
            secure: self.secure,
        };
        sessions.put(token, session);
        self.state = LoginState::SessionIssued;
        LoginAction::Establish {
            cookie,
            auth_id: user.auth_id,
            location: String::from_str("http://localhost:8080/user"),
        }
    }
}

/// Hands a login attempt what came, and gets the next action. The session
/// of a completed login is stored in `sessions`.
pub fn process_login(
    flow: &mut LoginFlow,
    event: LoginEvent,
    settings: &AuthParameters,
    sessions: &mut SessionDB,
    now: i64,
    today: Day,
) -> (action: LoginAction)
    ensures
        login_steps(
            *old(flow),
            event,
            *settings,
            old(sessions)@,
            now,
            today,
            *final(flow),
            final(sessions)@,
            action,
        ),
{
    if flow.state.is_final() {
        return LoginAction::Nothing;
    }
    match event {
        LoginEvent::Start => {
            if flow.state != LoginState::AwaitingRedirect {
                return flow.reject(LoginState::InternalError, Status::InternalServerError);
            }
            let state = build_random_state();
            let location = settings.build_authorize_url(state.as_str());
            flow.state = LoginState::AwaitingCallback;
            LoginAction::Redirect { state, location }
        },
        LoginEvent::Callback { cookie, state, code } => {
            if flow.state != LoginState::AwaitingCallback {
                return flow.reject(LoginState::InternalError, Status::InternalServerError);
            }
            flow.take_callback(settings, cookie, state, code)
        },
        LoginEvent::Tokens(tokens) => {
            if flow.state != LoginState::TokenExchangePending {
                return flow.reject(LoginState::InternalError, Status::InternalServerError);
            }
            let verdict = decode_and_validate(
                settings.client_id.as_str(),
                settings.auth0_domain.as_str(),
                tokens.id_token.as_str(),
                settings.client_secret.as_str(),
                now,
            );
            flow.take_verdict(verdict)
        },
        LoginEvent::UserFound(user) => {
            if flow.state != LoginState::Verified || flow.claims.is_none() {
                return flow.reject(LoginState::InternalError, Status::InternalServerError);
            }
            flow.issue_session(sessions, user)
        },
        LoginEvent::UserCreated(user) => {
            if flow.state != LoginState::Verified || flow.claims.is_none() || !flow.creating {
                return flow.reject(LoginState::InternalError, Status::InternalServerError);
            }
            flow.issue_session(sessions, user)
        },
        LoginEvent::UserMissing => {
            if flow.state != LoginState::Verified || flow.creating {
                return flow.reject(LoginState::InternalError, Status::InternalServerError);
            }
            let resolution = match &flow.claims {
                Some(claims) => get_or_create_user(None, claims, now, today),
                None => {
                    return flow.reject(LoginState::InternalError, Status::InternalServerError);
                },
            };
            match resolution {
                UserResolution::Create(user) => {
                    flow.creating = true;
                    LoginAction::CreateUser(user)
                },
                UserResolution::Existing(_) => flow.reject(
                    LoginState::InternalError,
                    Status::InternalServerError,
                ),
            }
        },
        LoginEvent::UserConflict => {
            if flow.state != LoginState::Verified || !flow.creating {
                return flow.reject(LoginState::InternalError, Status::InternalServerError);
            }
            match &flow.claims {
                Some(claims) => LoginAction::FindUser { auth_id: claims.sub.clone() },
                None => flow.reject(LoginState::InternalError, Status::InternalServerError),
            }
        },
        LoginEvent::ExchangeFailed => flow.reject(
            LoginState::InternalError,
            Status::InternalServerError,
        ),
        LoginEvent::StorageFailed => flow.reject(
            LoginState::InternalError,
            Status::InternalServerError,
        ),
    }
}

/// Starts a login: the anti-forgery state for the cookie, and the address
/// of the provider's login page that carries it.
pub fn auth0_login(settings: &AuthParameters) -> (r: (String, String))
    ensures
        r.0@.len() == STATE_LENGTH,
        forall|i: int| 0 <= i < r.0@.len() ==> is_alphanumeric(#[trigger] r.0@[i]),
        r.1@ == settings.spec_authorize_url(r.0@),
{
    let state = build_random_state();
    let location = settings.build_authorize_url(state.as_str());
    (state, location)
}

/// Ends the session of the request, if its cookie names one, and gives the
/// address of the provider's logout endpoint, which sends the user agent
/// back to the public landing page.
pub fn process_logout(sessions: &mut SessionDB, cookie: Option<&str>, settings: &AuthParameters) -> (redirect:
    Redirect)
    ensures
        final(sessions)@ == match cookie {
            Some(token) => old(sessions)@.remove(token@),
            None => old(sessions)@,
        },
        redirect.location@ == settings.spec_logout_url("http://localhost:8080/index"@),
{
    match cookie {
        Some(token) => {
            sessions.remove(token);
        },
        None => {},
    }
    Redirect { location: settings.build_logout_url("http://localhost:8080/index") }
}

/// What guards a route that needs a user.
#[derive(Debug)]
pub enum Guard {
    /// The request has no live session: it is not logged in.
    Forward,
    /// The session is live: the user of its subject is to be looked up.
    FindUser { session: Session },
}

/// Resolves the session cookie of a request at `now`: a request without a
/// cookie, with a token that is not stored, or with an expired session is
/// not logged in. The entry of an expired session is taken out of the
/// store.
pub fn guard_request(sessions: &mut SessionDB, cookie: Option<&str>, now: i64) -> (guard: Guard)
    ensures
        match cookie {
            None => guard is Forward && final(sessions)@ == old(sessions)@,
            Some(token) => {
                &&& match live_session(old(sessions)@, token@, now) {
                    Some(session) => guard == (Guard::FindUser { session }),
                    None => guard is Forward,
                }
                &&& final(sessions)@ == if old(sessions)@.contains_key(token@) && old(
                    sessions,
                )@[token@].spec_expired_at(now) {
                    old(sessions)@.remove(token@)
                } else {
                    old(sessions)@
                }
            },
        },
{
    match cookie {
        None => Guard::Forward,
        Some(token) => match sessions.get_or_purge(token, now) {
            Some(session) => Guard::FindUser { session },
            None => Guard::Forward,
        },
    }
}

/// The session store changes only when a session is issued: whatever a
/// login attempt is handed, the stored sessions stay as they are unless the
/// attempt answers with the session cookie, and then the one session
/// stored is the one the cookie names.
pub proof fn lemma_sessions_change_only_on_issue(
    pre: LoginFlow,
    event: LoginEvent,
    settings: AuthParameters,
    sessions: Map<Seq<char>, Session>,
    now: i64,
    today: Day,
    post: LoginFlow,
    after: Map<Seq<char>, Session>,
    action: LoginAction,
)
    requires
        login_steps(pre, event, settings, sessions, now, today, post, after, action),
    ensures
        !(action is Establish) ==> after == sessions,
        action is Establish ==> post.state == LoginState::SessionIssued && pre.state
            == LoginState::Verified && pre.claims is Some && after == sessions.insert(
            action->Establish_cookie.value@,
            after[action->Establish_cookie.value@],
        ),
        post.state == LoginState::SessionIssued && pre.state != LoginState::SessionIssued
            ==> action is Establish,
{
}

} // verus!
