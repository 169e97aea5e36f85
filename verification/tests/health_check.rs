use blockplot::auth::auth0::{AuthParameters, SessionDB};
use blockplot::day::Day;
use blockplot::db::models::{FormData, NewUser, User};
use blockplot::routes::authentication::{
    auth0_login, guard_request, process_login, process_logout, Guard, LoginAction, LoginEvent,
    LoginFlow, LoginState,
};
use blockplot::routes::health::{health_check, Status};
use blockplot::routes::index::{greeting, home, index, FlashMessage};
use blockplot::routes::skillblocks::{
    creation_failure, get_skillblocks, get_skillblocks_redirect, new_skillblock,
    new_skillblock_redirect, CreationStep, SyncAction, SyncError,
};
use blockplot::auth::auth0::TokenResponse;

const NOW: i64 = 1_600_000_000;

fn parameters() -> AuthParameters {
    AuthParameters {
        audience: String::from("https://blockplot/api"),
        auth0_domain: String::from("blockplot.auth0.com"),
        client_id: String::from("client-1"),
        client_secret: String::from("shared-secret"),
        redirect_url: String::from("http://localhost:8000/process"),
    }
}

fn today() -> Day {
    Day::from_ymd(2020, 9, 13).unwrap()
}

fn tokens(aud: &str, exp: i64) -> TokenResponse {
    let mut claims = serde_json::Map::new();
    claims.insert(String::from("aud"), serde_json::Value::from(aud));
    claims.insert(String::from("email"), serde_json::Value::from("ada@example.com"));
    claims.insert(String::from("exp"), serde_json::Value::from(exp));
    claims.insert(String::from("given_name"), serde_json::Value::from("Ada"));
    claims.insert(String::from("iss"), serde_json::Value::from("https://blockplot.auth0.com/"));
    claims.insert(String::from("nickname"), serde_json::Value::from("ada"));
    claims.insert(String::from("picture"), serde_json::Value::from("http://pictures/ada.png"));
    claims.insert(String::from("sub"), serde_json::Value::from("auth0|ada"));
    let id_token = jsonwebtoken::encode(
        &jsonwebtoken::Header::default(),
        &serde_json::Value::Object(claims),
        &jsonwebtoken::EncodingKey::from_secret("shared-secret".as_bytes()),
    )
    .unwrap();
    TokenResponse {
        access_token: String::from("opaque"),
        expires_in: 86_400,
        id_token,
        token_type: String::from("Bearer"),
    }
}

fn stored(user: NewUser, user_id: i32) -> User {
    User {
        user_id,
        auth_id: user.auth_id,
        api_key: user.api_key,
        key_present: user.key_present,
        block_count: user.block_count,
        created_at: user.created_at,
        last_login: user.last_login,
        blocks_last_fetched: user.blocks_last_fetched,
    }
}

/// Logs a new user in and returns the stored user and the session token.
fn configure_testuser(sessions: &mut SessionDB) -> (User, String, LoginAction) {
    let settings = parameters();
    let (state, location) = auth0_login(&settings);
    assert!(location.ends_with(&format!("&state={}", state)));
    let mut flow = LoginFlow::awaiting_callback(false);
    let callback = LoginEvent::Callback {
        cookie: Some(state.clone()),
        state,
        code: String::from("code-1"),
    };
    let action = process_login(&mut flow, callback, &settings, sessions, NOW, today());
    match &action {
        LoginAction::ExchangeCode { url, request } => {
            assert_eq!(url, "https://blockplot.auth0.com/oauth/token");
            assert_eq!(request.code, "code-1");
        }
        other => panic!("no exchange: {:?}", other),
    }
    assert_eq!(flow.state, LoginState::TokenExchangePending);
    let action = process_login(
        &mut flow,
        LoginEvent::Tokens(tokens("client-1", NOW + 3_600)),
        &settings,
        sessions,
        NOW,
        today(),
    );
    match &action {
        LoginAction::FindUser { auth_id } => assert_eq!(auth_id, "auth0|ada"),
        other => panic!("no lookup: {:?}", other),
    }
    assert_eq!(flow.state, LoginState::Verified);
    let action =
        process_login(&mut flow, LoginEvent::UserMissing, &settings, sessions, NOW, today());
    let user = match action {
        LoginAction::CreateUser(user) => stored(user, 1),
        other => panic!("no creation: {:?}", other),
    };
    let action = process_login(
        &mut flow,
        LoginEvent::UserCreated(user.clone()),
        &settings,
        sessions,
        NOW,
        today(),
    );
    assert_eq!(flow.state, LoginState::SessionIssued);
    let token = match &action {
        LoginAction::Establish { cookie, auth_id, location } => {
            assert_eq!(cookie.name, "session");
            assert_eq!(cookie.path, "/");
            assert!(cookie.http_only);
            assert!(!cookie.secure);
            assert_eq!(cookie.value.len(), 36);
            assert_eq!(auth_id, "auth0|ada");
            assert_eq!(location, "http://localhost:8080/user");
            cookie.value.clone()
        }
        other => panic!("no session: {:?}", other),
    };
    (user, token, action)
}

#[test]
fn it_works() {
    assert_eq!(2 + 2, 4);
}

#[test]
fn get_skillblocks_returns_401_if_user_guard_fails() {
    let mut sessions = SessionDB::new();
    assert!(matches!(guard_request(&mut sessions, None, NOW), Guard::Forward));
    assert!(matches!(guard_request(&mut sessions, Some("unknown"), NOW), Guard::Forward));
    let (redirect, flash) = get_skillblocks_redirect();
    assert_eq!(redirect.location, "/");
    assert_eq!(redirect.status(), Status::SeeOther);
    assert_eq!(greeting(&Some(FlashMessage { name: flash.name.clone(), msg: flash.msg.clone() })), "error: Invalid user login");
    assert_eq!(index(Some(flash)), Status::Unauthorized);
    assert_eq!(index(None).code(), 401);
}

#[test]
fn get_skillblocks_returns_404_if_key_not_found() {
    let mut sessions = SessionDB::new();
    let (user, token, _) = configure_testuser(&mut sessions);
    assert!(matches!(guard_request(&mut sessions, Some(&token), NOW), Guard::FindUser { .. }));
    let (run, action) = get_skillblocks(user, today());
    assert!(run.is_finished());
    assert!(matches!(action, SyncAction::Fail(SyncError::NoApiKey)));
    assert_eq!(action.response_status(), Some(Status::NotFound));
    assert_eq!(Status::NotFound.code(), 404);
}

#[test]
fn new_skillblocks_successfully_returns_303() {
    let mut sessions = SessionDB::new();
    let (mut user, _, _) = configure_testuser(&mut sessions);
    let form = FormData {
        api_key: Some(String::from("abc123")),
        category: String::from("software development"),
        offline_category: false,
        description: String::from("practice"),
        skill_name: String::from("Coding"),
    };
    let creation = new_skillblock(&user, &form).unwrap();
    assert_eq!(creation.api_key, Some(String::from("abc123")));
    assert_eq!(creation.skillblock.user_id, Some(user.user_id));
    assert_eq!(creation.skillblock.category, "software development");
    assert!(!creation.skillblock.offline_category);
    assert_eq!(creation.skillblock.skill_name, "Coding");
    assert_eq!(creation.skillblock.skill_description, "practice");
    assert_eq!(creation.location, "http://localhost:8080/user");
    user.api_key = creation.api_key.clone();
    user.key_present = true;
    user.block_count = creation.block_count;
    let block_count = user.block_count;

    assert_eq!(block_count, 1);
    assert_eq!(creation.status(), Status::SeeOther);
    assert_eq!(creation.status().code(), 303);
}

#[test]
fn new_skillblock_returns_401_if_user_not_logged_in() {
    let mut sessions = SessionDB::new();
    assert!(matches!(guard_request(&mut sessions, None, NOW), Guard::Forward));
    assert_eq!(new_skillblock_redirect(), Status::Unauthorized);
}

#[test]
fn health_check_returns_200() {
    assert_eq!(health_check(), Status::Success);
    assert_eq!(health_check().code(), 200);
}

#[test]
fn process_login_successfully_stores_user_and_returns_303() {
    let mut sessions = SessionDB::new();
    let (user, token, action) = configure_testuser(&mut sessions);
    let response_status = action.response_status();
    let session = sessions.get(&token, NOW).unwrap();
    let pg_user = if session.user_id == user.auth_id { Some(user) } else { None };

    assert_eq!(pg_user.is_some(), true);
    assert_eq!(response_status, Some(Status::SeeOther));
    assert_eq!(session.expires, NOW + 3_600);
    assert_eq!(session.email, "ada@example.com");
    assert_eq!(session.block_count, 0);
    assert!(!session.key_present);
}

#[test]
fn process_logout_successfully_returns_303() {
    let mut sessions = SessionDB::new();
    let (_, token, _) = configure_testuser(&mut sessions);
    let redirect = process_logout(&mut sessions, Some(&token), &parameters());
    assert_eq!(redirect.status(), Status::SeeOther);
    assert_eq!(
        redirect.location,
        "https://blockplot.auth0.com/v2/logout?client_id=client-1&returnTo=http://localhost:8080/index"
    );
    assert!(sessions.stored(&token).is_none());
    assert!(matches!(guard_request(&mut sessions, Some(&token), NOW), Guard::Forward));
    let again = process_logout(&mut sessions, None, &parameters());
    assert_eq!(again.status(), Status::SeeOther);
}

#[test]
fn session_tokens_are_fresh() {
    let mut sessions = SessionDB::new();
    let (_, first, _) = configure_testuser(&mut sessions);
    let (_, second, _) = configure_testuser(&mut sessions);
    assert_ne!(first, second);
    assert!(sessions.stored(&first).is_some());
    assert!(sessions.stored(&second).is_some());
    assert!(first.chars().all(|c| c == '-' || c.is_ascii_hexdigit()));
}

#[test]
fn expired_session_is_not_logged_in() {
    let mut sessions = SessionDB::new();
    let (_, token, _) = configure_testuser(&mut sessions);
    match guard_request(&mut sessions, Some(&token), NOW + 3_599) {
        Guard::FindUser { session } => assert_eq!(session.user_id, "auth0|ada"),
        Guard::Forward => panic!("forwarded"),
    }
    assert_eq!(home(sessions.get(&token, NOW + 3_600)).unwrap_err(), Status::Unauthorized);
    assert_eq!(home(sessions.get(&token, NOW)).unwrap().nickname, "ada");
    assert!(sessions.stored(&token).is_some());
    assert!(matches!(guard_request(&mut sessions, Some(&token), NOW + 3_600), Guard::Forward));
    assert!(sessions.stored(&token).is_none());
}

#[test]
fn callback_without_cookie_is_a_bad_request() {
    let mut sessions = SessionDB::new();
    let mut flow = LoginFlow::awaiting_callback(true);
    let event = LoginEvent::Callback {
        cookie: None,
        state: String::from("Ab3dE9z"),
        code: String::from("c"),
    };
    let action = process_login(&mut flow, event, &parameters(), &mut sessions, NOW, today());
    assert_eq!(action.response_status(), Some(Status::BadRequest));
    assert_eq!(Status::BadRequest.code(), 400);
    assert_eq!(flow.state, LoginState::BadRequest);
    let after = process_login(&mut flow, LoginEvent::Start, &parameters(), &mut sessions, NOW, today());
    assert!(matches!(after, LoginAction::Nothing));
}

#[test]
fn callback_with_another_state_is_forbidden() {
    let mut sessions = SessionDB::new();
    let mut flow = LoginFlow::awaiting_callback(true);
    let event = LoginEvent::Callback {
        cookie: Some(String::from("Ab3dE9z")),
        state: String::from("Ab3dE9y"),
        code: String::from("c"),
    };
    let action = process_login(&mut flow, event, &parameters(), &mut sessions, NOW, today());
    assert_eq!(action.response_status(), Some(Status::Forbidden));
    assert_eq!(Status::Forbidden.code(), 403);
    assert_eq!(flow.state, LoginState::Forbidden);
}

fn exchanged() -> LoginFlow {
    let mut sessions = SessionDB::new();
    let mut flow = LoginFlow::awaiting_callback(true);
    let event = LoginEvent::Callback {
        cookie: Some(String::from("Ab3dE9z")),
        state: String::from("Ab3dE9z"),
        code: String::from("c"),
    };
    let _ = process_login(&mut flow, event, &parameters(), &mut sessions, NOW, today());
    flow
}

#[test]
fn unverified_token_is_unauthorized() {
    let mut sessions = SessionDB::new();
    let mut flow = exchanged();
    let event = LoginEvent::Tokens(tokens("someone-else", NOW + 3_600));
    let action = process_login(&mut flow, event, &parameters(), &mut sessions, NOW, today());
    assert_eq!(action.response_status(), Some(Status::Unauthorized));
    assert_eq!(flow.state, LoginState::Unauthorized);
    let mut late = exchanged();
    let event = LoginEvent::Tokens(tokens("client-1", NOW));
    let action = process_login(&mut late, event, &parameters(), &mut sessions, NOW, today());
    assert_eq!(action.response_status(), Some(Status::Unauthorized));
}

#[test]
fn failed_exchange_or_directory_is_an_internal_error() {
    let mut sessions = SessionDB::new();
    let mut flow = exchanged();
    let action =
        process_login(&mut flow, LoginEvent::ExchangeFailed, &parameters(), &mut sessions, NOW, today());
    assert_eq!(action.response_status(), Some(Status::InternalServerError));
    assert_eq!(Status::InternalServerError.code(), 500);
    assert_eq!(flow.state, LoginState::InternalError);
    let mut verified = exchanged();
    let event = LoginEvent::Tokens(tokens("client-1", NOW + 1));
    let _ = process_login(&mut verified, event, &parameters(), &mut sessions, NOW, today());
    let action =
        process_login(&mut verified, LoginEvent::StorageFailed, &parameters(), &mut sessions, NOW, today());
    assert_eq!(action.response_status(), Some(Status::InternalServerError));
    let mut out_of_turn = LoginFlow::new(true);
    let action =
        process_login(&mut out_of_turn, LoginEvent::UserMissing, &parameters(), &mut sessions, NOW, today());
    assert_eq!(action.response_status(), Some(Status::InternalServerError));
}

#[test]
fn racing_first_logins_fall_back_to_the_stored_user() {
    let mut sessions = SessionDB::new();
    let mut flow = exchanged();
    let event = LoginEvent::Tokens(tokens("client-1", NOW + 1));
    let _ = process_login(&mut flow, event, &parameters(), &mut sessions, NOW, today());
    let action =
        process_login(&mut flow, LoginEvent::UserMissing, &parameters(), &mut sessions, NOW, today());
    let created = match action {
        LoginAction::CreateUser(user) => user,
        other => panic!("no creation: {:?}", other),
    };
    let action =
        process_login(&mut flow, LoginEvent::UserConflict, &parameters(), &mut sessions, NOW, today());
    match &action {
        LoginAction::FindUser { auth_id } => assert_eq!(auth_id, "auth0|ada"),
        other => panic!("no lookup: {:?}", other),
    }
    assert_eq!(flow.state, LoginState::Verified);
    let action = process_login(
        &mut flow,
        LoginEvent::UserFound(stored(created, 9)),
        &parameters(),
        &mut sessions,
        NOW,
        today(),
    );
    match action {
        LoginAction::Establish { cookie, .. } => {
            assert!(cookie.secure);
            assert_eq!(sessions.get(&cookie.value, NOW).unwrap().user_id, "auth0|ada");
        }
        other => panic!("no session: {:?}", other),
    }
}

#[test]
fn login_starts_with_a_redirect_to_the_provider() {
    let mut sessions = SessionDB::new();
    let mut flow = LoginFlow::new(true);
    let action = process_login(&mut flow, LoginEvent::Start, &parameters(), &mut sessions, NOW, today());
    assert_eq!(action.response_status(), Some(Status::SeeOther));
    assert_eq!(flow.state, LoginState::AwaitingCallback);
    assert!(!flow.state.is_final());
    match action {
        LoginAction::Redirect { state, location } => {
            assert_eq!(state.len(), 7);
            assert_eq!(location, parameters().build_authorize_url(&state));
        }
        other => panic!("no redirect: {:?}", other),
    }
}

#[test]
fn skillblock_creation_is_refused_over_the_limit_or_without_key() {
    let mut user = User {
        user_id: 1,
        auth_id: String::from("auth0|ada"),
        api_key: None,
        key_present: false,
        block_count: 0,
        created_at: NOW,
        last_login: NOW,
        blocks_last_fetched: today(),
    };
    let mut form = FormData {
        api_key: None,
        category: String::from("reading"),
        offline_category: true,
        description: String::from("books"),
        skill_name: String::from("Reading"),
    };
    assert_eq!(new_skillblock(&user, &form).unwrap_err(), Status::Forbidden);
    form.api_key = Some(String::from("k"));
    user.block_count = 4;
    assert_eq!(new_skillblock(&user, &form).unwrap_err(), Status::Forbidden);
    user.block_count = 3;
    let creation = new_skillblock(&user, &form).unwrap();
    assert_eq!(creation.block_count, 4);
    assert!(creation.skillblock.offline_category);
    user.key_present = true;
    user.api_key = Some(String::from("old"));
    let keyed = new_skillblock(&user, &form).unwrap();
    assert_eq!(keyed.api_key, None);
    assert_eq!(creation_failure(CreationStep::StoreKey), Some(Status::Forbidden));
    assert_eq!(creation_failure(CreationStep::InsertSkillblock), Some(Status::InternalServerError));
    assert_eq!(creation_failure(CreationStep::UpdateBlockCount), None);
}
