//! The parameters of the identity provider, the verification of identity
//! tokens, the user directory's decision and the session store.

use crate::day::Day;
use crate::db::models::{NewUser, User};
use crate::text::{push_char, same_text};
use vstd::prelude::*;
use vstd::string::StringExecFns;

verus! {

/// How many characters the anti-forgery state has.
pub const STATE_LENGTH: usize = 7;

/// Whether the character is an ASCII letter or digit.
pub open spec fn is_alphanumeric(c: char) -> bool {
    ('0' <= c && c <= '9') || ('A' <= c && c <= 'Z') || ('a' <= c && c <= 'z')
}

/// Trusted: `rand::Rng::sample` of `rand::distributions::Alphanumeric` on the
/// thread's generator. Whatever the generator gives, the result is one of
/// `A`-`Z`, `a`-`z`, `0`-`9`.
#[verifier::external_body]
fn sample_alphanumeric() -> (c: char)
    ensures
        is_alphanumeric(c),
{
    rand::Rng::sample(&mut rand::thread_rng(), rand::distributions::Alphanumeric)
}

/// A fresh random anti-forgery state: seven ASCII letters and digits.
pub fn build_random_state() -> (state: String)
    ensures
        state@.len() == STATE_LENGTH,
        forall|i: int| 0 <= i < state@.len() ==> is_alphanumeric(#[trigger] state@[i]),
{
    let mut state = String::new();
    let mut n: usize = 0;
    while n < STATE_LENGTH
        invariant
            n <= STATE_LENGTH,
            state@.len() == n,
            forall|i: int| 0 <= i < state@.len() ==> is_alphanumeric(#[trigger] state@[i]),
        decreases STATE_LENGTH - n,
    {
        let c = sample_alphanumeric();
        push_char(&mut state, c);
        n += 1;
    }
    state
}

/// The parameters of the identity provider.
#[derive(Debug)]
pub struct AuthParameters {
    pub audience: String,
    pub auth0_domain: String,
    pub client_id: String,
    pub client_secret: String,
    pub redirect_url: String,
}

/// The settings file of the identity provider.
#[derive(Debug)]
pub struct Settings {
    pub authparameters: AuthParameters,
}

/// What is posted to the provider's token endpoint.
#[derive(Debug)]
pub struct TokenRequest {
    pub client_id: String,
    pub client_secret: String,
    pub code: String,
    pub grant_type: String,
    pub redirect_uri: String,
}

/// What the provider's token endpoint answers.
#[derive(Debug)]
pub struct TokenResponse {
    pub access_token: String,
    pub expires_in: u32,
    pub id_token: String,
    pub token_type: String,
}

/// The claims of an access token.
#[derive(Debug)]
pub struct AccessToken {
    pub aud: Vec<String>,
    pub exp: i64,
    pub iss: String,
    pub sub: String,
}

/// The claims of an identity token.
#[derive(Debug)]
pub struct IdToken {
    pub aud: String,
    pub email: String,
    pub exp: i64,
    pub given_name: String,
    pub iss: String,
    pub nickname: String,
    pub picture: String,
    pub sub: String,
}

/// A user as the presentation layer names one.
#[derive(Debug)]
pub struct UserInfo {
    pub email: String,
    pub user_id: String,
}

/// The issuer a provider at `domain` puts into its tokens.
pub open spec fn issuer_of(domain: Seq<char>) -> Seq<char> {
    "https://"@ + domain + "/"@
}

impl AuthParameters {
    /// The parameters named by a settings file.
    pub fn new_testing(config: Settings) -> (parameters: AuthParameters)
        ensures
            parameters == config.authparameters,
    {
        config.authparameters
    }

    /// The address of the provider's login page for the anti-forgery
    /// state `state`.
    pub open spec fn spec_authorize_url(&self, state: Seq<char>) -> Seq<char> {
        "https://"@ + self.auth0_domain@ + "/authorize?audience="@ + self.audience@
            + "&scope=openid%20email%20profile&response_type=code&client_id="@ + self.client_id@
            + "&redirect_uri="@ + self.redirect_url@ + "&state="@ + state
    }

    /// The address of the provider's token endpoint.
    pub open spec fn spec_token_url(&self) -> Seq<char> {
        "https://"@ + self.auth0_domain@ + "/oauth/token"@
    }

    /// The address of the provider's logout endpoint, which sends the user
    /// agent on to `return_to`.
    pub open spec fn spec_logout_url(&self, return_to: Seq<char>) -> Seq<char> {
        "https://"@ + self.auth0_domain@ + "/v2/logout?client_id="@ + self.client_id@
            + "&returnTo="@ + return_to
    }

    /// The address of the provider's login page for the anti-forgery
    /// state `state`.
    pub fn build_authorize_url(&self, state: &str) -> (url: String)
        ensures
            url@ == self.spec_authorize_url(state@),
    {
        let mut url = String::from_str("https://");
        url.append(self.auth0_domain.as_str());
        url.append("/authorize?audience=");
        url.append(self.audience.as_str());
        url.append("&scope=openid%20email%20profile&response_type=code&client_id=");
        url.append(self.client_id.as_str());
        url.append("&redirect_uri=");
        url.append(self.redirect_url.as_str());
        url.append("&state=");
        url.append(state);
        url
    }

    /// The request that exchanges the authorization code `code` for tokens.
    pub fn build_token_request(&self, code: &str) -> (request: TokenRequest)
        ensures
            request.grant_type@ == "authorization_code"@,
            request.client_id == self.client_id,
            request.client_secret == self.client_secret,
            request.code@ == code@,
            request.redirect_uri == self.redirect_url,
    {
        TokenRequest {
            grant_type: String::from_str("authorization_code"),
            client_id: self.client_id.clone(),
            client_secret: self.client_secret.clone(),
            code: String::from_str(code),
            redirect_uri: self.redirect_url.clone(),
        }
    }

    /// The address of the provider's token endpoint.
    pub fn build_token_url(&self) -> (url: String)
        ensures
            url@ == self.spec_token_url(),
    {
        let mut url = String::from_str("https://");
        url.append(self.auth0_domain.as_str());
        url.append("/oauth/token");
        url
    }

    /// The address of the provider's logout endpoint, which sends the user
    /// agent on to `return_to`.
    pub fn build_logout_url(&self, return_to: &str) -> (url: String)
        ensures
            url@ == self.spec_logout_url(return_to@),
    {
        let mut url = String::from_str("https://");
        url.append(self.auth0_domain.as_str());
        url.append("/v2/logout?client_id=");
        url.append(self.client_id.as_str());
        url.append("&returnTo=");
        url.append(return_to);
        url
    }
}

/// Why an identity token is not trusted.
#[derive(Clone, Copy, Debug, PartialEq, Eq, Structural)]
pub enum VerifyError {
    /// The token is not a token signed with the shared secret.
    SignatureInvalid,
    /// The signed claims lack a claim, or hold one of another type.
    ClaimsMalformed,
    AudienceMismatch,
    IssuerMismatch,
    Expired,
    /// No key material could be obtained to verify with.
    KeyFetchFailed,
}

/// `serde_json::Value`, carried through as it is: what the library reads
/// of one, it reads through `json_string` and `json_integer`.
#[verifier::external_type_specification]
#[verifier::external_body]
pub struct ExJsonValue(serde_json::Value);

/// The members of a JSON object that are strings, by name. Empty for a
/// value that is no object.
pub uninterp spec fn json_strings(value: serde_json::Value) -> Map<Seq<char>, Seq<char>>;

/// The members of a JSON object that are integers in the range of `i64`, by
/// name. Empty for a value that is no object.
pub uninterp spec fn json_integers(value: serde_json::Value) -> Map<Seq<char>, int>;

/// Trusted: `serde_json::Value::get` with a name, then `as_str`. The result
/// is the member of that name where the value is an object that has it and
/// it is a string, and `None` otherwise.
#[verifier::external_body]
fn json_string(value: &serde_json::Value, name: &str) -> (r: Option<String>)
    ensures
        match r {
            Some(text) => json_strings(*value).contains_key(name@) && json_strings(*value)[name@]
                == text@,
            None => !json_strings(*value).contains_key(name@),
        },
{
    value.get(name).and_then(|member| member.as_str()).map(|text| text.to_string())
}

/// Trusted: `serde_json::Value::get` with a name, then `as_i64`. The result
/// is the member of that name where the value is an object that has it and
/// it is an integer in the range of `i64`, and `None` otherwise.
#[verifier::external_body]
fn json_integer(value: &serde_json::Value, name: &str) -> (r: Option<i64>)
    ensures
        match r {
            Some(n) => json_integers(*value).contains_key(name@) && json_integers(*value)[name@]
                == n,
            None => !json_integers(*value).contains_key(name@),
        },
{
    value.get(name).and_then(|member| member.as_i64())
}

/// The claims `jsonwebtoken::decode` hands out for the token `jwt` under
/// the HMAC key `secret`, when it admits HS256 alone and checks no claim:
/// their string members and their integer members. `None` where it rejects
/// the token.
pub uninterp spec fn hs256_claims(jwt: Seq<char>, secret: Seq<char>) -> Option<
    (Map<Seq<char>, Seq<char>>, Map<Seq<char>, int>),
>;

/// Trusted: `jsonwebtoken::decode` with an HMAC key made of `secret` and a
/// validation that admits HS256 alone and leaves every claim check off, so
/// that the result depends on the token and the secret alone. The result is
/// the signed claims, or `None` where the library rejects the token.
/// Nothing is claimed of which tokens it accepts.
#[verifier::external_body]
fn decode_hs256(jwt: &str, secret: &str) -> (r: Option<serde_json::Value>)
    ensures
        match r {
            Some(value) => hs256_claims(jwt@, secret@) == Some(
                (json_strings(value), json_integers(value)),
            ),
            None => hs256_claims(jwt@, secret@).is_none(),
        },
{
    let mut validation = jsonwebtoken::Validation::new(jsonwebtoken::Algorithm::HS256);
    validation.validate_exp = false;
    let key = jsonwebtoken::DecodingKey::from_secret(secret.as_bytes());
    jsonwebtoken::decode::<serde_json::Value>(jwt, &key, &validation).ok().map(|data| data.claims)
}

/// Whether claims with these members hold every member of an identity
/// token.
pub open spec fn has_identity_claims(
    strings: Map<Seq<char>, Seq<char>>,
    integers: Map<Seq<char>, int>,
) -> bool {
    &&& strings.contains_key("aud"@)
    &&& strings.contains_key("email"@)
    &&& integers.contains_key("exp"@)
    &&& strings.contains_key("given_name"@)
    &&& strings.contains_key("iss"@)
    &&& strings.contains_key("nickname"@)
    &&& strings.contains_key("picture"@)
    &&& strings.contains_key("sub"@)
}

/// Whether `token` holds these members.
pub open spec fn claims_match(
    token: IdToken,
    strings: Map<Seq<char>, Seq<char>>,
    integers: Map<Seq<char>, int>,
) -> bool {
    &&& token.aud@ == strings["aud"@]
    &&& token.email@ == strings["email"@]
    &&& token.exp == integers["exp"@]
    &&& token.given_name@ == strings["given_name"@]
    &&& token.iss@ == strings["iss"@]
    &&& token.nickname@ == strings["nickname"@]
    &&& token.picture@ == strings["picture"@]
    &&& token.sub@ == strings["sub"@]
}

/// Reads the claims of an identity token out of signed claims. `None`
/// where a claim is missing or of another type.
pub fn identity_claims(value: &serde_json::Value) -> (r: Option<IdToken>)
    ensures
        r.is_some() == has_identity_claims(json_strings(*value), json_integers(*value)),
        r matches Some(token) ==> claims_match(
            token,
            json_strings(*value),
            json_integers(*value),
        ),
{
    let aud = json_string(value, "aud");
    let email = json_string(value, "email");
    let exp = json_integer(value, "exp");
    let given_name = json_string(value, "given_name");
    let iss = json_string(value, "iss");
    let nickname = json_string(value, "nickname");
    let picture = json_string(value, "picture");
    let sub = json_string(value, "sub");
    match (aud, email, exp, given_name, iss, nickname, picture, sub) {
        (
            Some(aud),
            Some(email),
            Some(exp),
            Some(given_name),
            Some(iss),
            Some(nickname),
            Some(picture),
            Some(sub),
        ) => Some(IdToken { aud, email, exp, given_name, iss, nickname, picture, sub }),
        _ => None,
    }
}

/// What the checks on decoded claims come to: the audience first, then the
/// issuer, then the expiry.
pub open spec fn claims_verdict(
    claims: IdToken,
    audience: Seq<char>,
    domain: Seq<char>,
    now: i64,
) -> Result<IdToken, VerifyError> {
    if claims.aud@ != audience {
        Err(VerifyError::AudienceMismatch)
    } else if claims.iss@ != issuer_of(domain) {
        Err(VerifyError::IssuerMismatch)
    } else if claims.exp <= now {
        Err(VerifyError::Expired)
    } else {
        Ok(claims)
    }
}

/// Checks decoded claims against the expected audience, the provider's
/// domain and the time `now`, in seconds since the epoch.
pub fn validate_claims(claims: IdToken, audience: &str, domain: &str, now: i64) -> (r: Result<
    IdToken,
    VerifyError,
>)
    ensures
        r == claims_verdict(claims, audience@, domain@, now),
{
    if !same_text(claims.aud.as_str(), audience) {
        return Err(VerifyError::AudienceMismatch);
    }
    let mut issuer = String::from_str("https://");
    issuer.append(domain);
    issuer.append("/");
    if !same_text(claims.iss.as_str(), issuer.as_str()) {
        return Err(VerifyError::IssuerMismatch);
    }
    if claims.exp <= now {
        return Err(VerifyError::Expired);
    }
    Ok(claims)
}

/// A mismatched audience or issuer is never accepted: claims with another
/// audience are rejected as such, claims with the right audience and
/// another issuer are rejected as such, and accepted claims are handed on
/// as they are.
pub proof fn lemma_mismatch_is_rejected(
    claims: IdToken,
    audience: Seq<char>,
    domain: Seq<char>,
    now: i64,
)
    ensures
        claims.aud@ != audience ==> claims_verdict(claims, audience, domain, now) == (Err::<
            IdToken,
            VerifyError,
        >(VerifyError::AudienceMismatch)),
        claims.aud@ == audience && claims.iss@ != issuer_of(domain) ==> claims_verdict(
            claims,
            audience,
            domain,
            now,
        ) == (Err::<IdToken, VerifyError>(VerifyError::IssuerMismatch)),
        claims_verdict(claims, audience, domain, now) is Ok ==> claims.aud@ == audience
            && claims.iss@ == issuer_of(domain) && claims.exp > now && claims_verdict(
            claims,
            audience,
            domain,
            now,
        ) == (Ok::<IdToken, VerifyError>(claims)),
{
}

/// What becomes of decoded claims with these members: they must be those
/// of an identity token and pass the checks.
pub open spec fn claims_verified(
    r: Result<IdToken, VerifyError>,
    strings: Map<Seq<char>, Seq<char>>,
    integers: Map<Seq<char>, int>,
    audience: Seq<char>,
    domain: Seq<char>,
    now: i64,
) -> bool {
    if !has_identity_claims(strings, integers) {
        r == (Err::<IdToken, VerifyError>(VerifyError::ClaimsMalformed))
    } else {
        exists|claims: IdToken| #[trigger]
            claims_match(claims, strings, integers) && r == claims_verdict(
                claims,
                audience,
                domain,
                now,
            )
    }
}

/// What becomes of the token `jwt` under the key `secret`, whatever the
/// key: a token that is not accepted under it has an invalid signature; the
/// claims of an accepted token must be those of an identity token and pass
/// the checks.
pub open spec fn token_verified(
    r: Result<IdToken, VerifyError>,
    audience: Seq<char>,
    domain: Seq<char>,
    jwt: Seq<char>,
    secret: Seq<char>,
    now: i64,
) -> bool {
    match hs256_claims(jwt, secret) {
        None => r == (Err::<IdToken, VerifyError>(VerifyError::SignatureInvalid)),
        Some(claims) => claims_verified(r, claims.0, claims.1, audience, domain, now),
    }
}

/// What becomes of a decoded token: a token that was not accepted has an
/// invalid signature; accepted claims must be those of an identity token
/// and pass the checks.
pub fn verify_decoded(
    decoded: Option<serde_json::Value>,
    audience: &str,
    domain: &str,
    now: i64,
) -> (r: Result<IdToken, VerifyError>)
    ensures
        match decoded {
            None => r == (Err::<IdToken, VerifyError>(VerifyError::SignatureInvalid)),
            Some(value) => claims_verified(
                r,
                json_strings(value),
                json_integers(value),
                audience@,
                domain@,
                now,
            ),
        },
{
    match decoded {
        None => Err(VerifyError::SignatureInvalid),
        Some(value) => match identity_claims(&value) {
            None => Err(VerifyError::ClaimsMalformed),
            Some(claims) => {
                let verdict = validate_claims(claims, audience, domain, now);
                proof {
                    assert(claims_match(claims, json_strings(value), json_integers(value)));
                }
                verdict
            },
        },
    }
}

/// Verifies the identity token `jwt`: its HS256 signature under `secret`
/// first, then its audience, its issuer and its expiry at `now`, in seconds
/// since the epoch.
pub fn decode_and_validate(audience: &str, domain: &str, jwt: &str, secret: &str, now: i64) -> (r:
    Result<IdToken, VerifyError>)
    ensures
        token_verified(r, audience@, domain@, jwt@, secret@, now),
{
    let decoded = decode_hs256(jwt, secret);
    verify_decoded(decoded, audience, domain, now)
}

/// Verifies the identity token `jwt` with the key material at hand: where
/// none could be obtained, nothing is verified and the failure is reported
/// as such; else the token is verified under the key.
pub fn verify(audience: &str, domain: &str, jwt: &str, key: Option<&str>, now: i64) -> (r: Result<
    IdToken,
    VerifyError,
>)
    ensures
        match key {
            None => r == (Err::<IdToken, VerifyError>(VerifyError::KeyFetchFailed)),
            Some(secret) => token_verified(r, audience@, domain@, jwt@, secret@, now),
        },
{
    match key {
        None => Err(VerifyError::KeyFetchFailed),
        Some(secret) => decode_and_validate(audience, domain, jwt, secret, now),
    }
}

/// Whatever the token and the key, accepted claims are those the token was
/// signed with, have the expected audience and issuer and are not expired;
/// and a token is rejected with the kind of the first check it fails: the
/// signature, then the audience, then the issuer, then the expiry.
pub proof fn lemma_accepted_claims_are_checked(
    r: Result<IdToken, VerifyError>,
    audience: Seq<char>,
    domain: Seq<char>,
    jwt: Seq<char>,
    secret: Seq<char>,
    now: i64,
)
    requires
        token_verified(r, audience, domain, jwt, secret, now),
    ensures
        r matches Ok(claims) ==> {
            &&& hs256_claims(jwt, secret) matches Some(signed)
            &&& has_identity_claims(signed.0, signed.1)
            &&& claims_match(claims, signed.0, signed.1)
            &&& claims.aud@ == audience
            &&& claims.iss@ == issuer_of(domain)
            &&& claims.exp > now
        },
        hs256_claims(jwt, secret) is None ==> r == (Err::<IdToken, VerifyError>(
            VerifyError::SignatureInvalid,
        )),
        hs256_claims(jwt, secret) matches Some(signed) ==> has_identity_claims(signed.0, signed.1)
            ==> {
            &&& signed.0["aud"@] != audience ==> r == (Err::<IdToken, VerifyError>(
                VerifyError::AudienceMismatch,
            ))
            &&& signed.0["aud"@] == audience && signed.0["iss"@] != issuer_of(domain) ==> r == (Err::<
                IdToken,
                VerifyError,
            >(VerifyError::IssuerMismatch))
            &&& signed.0["aud"@] == audience && signed.0["iss"@] == issuer_of(domain)
                && signed.1["exp"@] <= now ==> r == (Err::<IdToken, VerifyError>(
                VerifyError::Expired,
            ))
            &&& signed.0["aud"@] == audience && signed.0["iss"@] == issuer_of(domain)
                && signed.1["exp"@] > now ==> r is Ok
        },
        r matches Err(error) ==> error != VerifyError::KeyFetchFailed,
{
}

/// What the user directory does for verified claims.
#[derive(Debug)]
pub enum UserResolution {
    /// The subject is known: this is its user.
    Existing(User),
    /// The subject is new: this user is to be created.
    Create(NewUser),
}

/// Whether `user` is the user created for the subject `sub` at `now` on the
/// day `today`.
pub open spec fn is_new_user(user: NewUser, sub: Seq<char>, now: i64, today: Day) -> bool {
    &&& user.auth_id@ == sub
    &&& user.api_key.is_none()
    &&& !user.key_present
    &&& user.block_count == 0
    &&& user.created_at == now
    &&& user.last_login == now
    &&& user.blocks_last_fetched == today
}

/// Resolves verified claims to a user: the user found for the subject,
/// unchanged, or else a new user to create.
pub fn get_or_create_user(found: Option<User>, claims: &IdToken, now: i64, today: Day) -> (r:
    UserResolution)
    ensures
        match found {
            Some(user) => r == UserResolution::Existing(user),
            None => r matches UserResolution::Create(user) && is_new_user(
                user,
                claims.sub@,
                now,
                today,
            ),
        },
{
    match found {
        Some(user) => UserResolution::Existing(user),
        None => UserResolution::Create(
            NewUser {
                auth_id: claims.sub.clone(),
                api_key: None,
                key_present: false,
                block_count: 0,
                created_at: now,
                last_login: now,
                blocks_last_fetched: today,
            },
        ),
    }
}

/// What the service remembers of a logged-in user.
#[derive(Clone, Debug)]
pub struct Session {
    pub block_count: i32,
    pub email: String,
    /// Seconds since the epoch.
    pub expires: i64,
    pub given_name: String,
    pub key_present: bool,
    pub nickname: String,
    pub picture: String,
    pub user_id: String,
}

/// Trusted: `chrono::Utc::now` and `timestamp`: the clock's seconds since
/// the epoch. Nothing is claimed of the result.
#[verifier::external_body]
fn unix_now() -> i64 {
    chrono::Utc::now().timestamp()
}

impl Session {
    /// Whether the session is expired at `now`: it is from the second it
    /// expires in.
    pub open spec fn spec_expired_at(&self, now: i64) -> bool {
        self.expires <= now
    }

    /// Whether the session is expired at `now`, in seconds since the epoch.
    pub fn expired_at(&self, now: i64) -> (expired: bool)
        ensures
            expired == self.spec_expired_at(now),
    {
        self.expires <= now
    }

    /// Whether the session is expired by the clock.
    pub fn session_expired(&self) -> (expired: bool)
        ensures
            exists|now: i64| expired == #[trigger] self.spec_expired_at(now),
    {
        let now = unix_now();
        self.expired_at(now)
    }

    /// The session of `user` under verified `claims`.
    pub fn issue(claims: IdToken, user: &User) -> (session: Session)
        ensures
            session.block_count == user.block_count,
            session.email == claims.email,
            session.expires == claims.exp,
            session.given_name == claims.given_name,
            session.key_present == user.key_present,
            session.nickname == claims.nickname,
            session.picture == claims.picture,
            session.user_id == user.auth_id,
    {
        Session {
            block_count: user.block_count,
            email: claims.email,
            expires: claims.exp,
            given_name: claims.given_name,
            key_present: user.key_present,
            nickname: claims.nickname,
            picture: claims.picture,
            user_id: user.auth_id.clone(),
        }
    }
}

/// `dashmap::DashMap`, held as it is: what the library reads and writes of
/// one, it does through the `sessions_` functions.
#[verifier::external_type_specification]
#[verifier::external_body]
#[verifier::reject_recursive_types(K)]
#[verifier::reject_recursive_types(V)]
#[verifier::reject_recursive_types(S)]
pub struct ExDashMap<K, V, S>(dashmap::DashMap<K, V, S>);

/// The sessions a map holds, by token.
pub uninterp spec fn session_entries(map: dashmap::DashMap<String, Session>) -> Map<
    Seq<char>,
    Session,
>;

/// Trusted: `dashmap::DashMap::new` makes a map that holds nothing.
#[verifier::external_body]
fn sessions_new() -> (created: dashmap::DashMap<String, Session>)
    ensures
        session_entries(created) == (Map::<Seq<char>, Session>::empty()),
{
    dashmap::DashMap::new()
}

/// Trusted: `dashmap::DashMap::insert` stores the session under the token,
/// in place of what was stored under it, and leaves every other entry.
/// The exclusive borrow keeps other writers out for the call.
#[verifier::external_body]
fn sessions_insert(map: &mut dashmap::DashMap<String, Session>, token: String, session: Session)
    ensures
        session_entries(*final(map)) == session_entries(*old(map)).insert(token@, session),
{
    map.insert(token, session);
}

/// Trusted: `dashmap::DashMap::get` finds the entry of the token, of which
/// a copy is handed out, or `None` where the map has none.
#[verifier::external_body]
fn sessions_get(map: &dashmap::DashMap<String, Session>, token: &str) -> (r: Option<Session>)
    ensures
        match r {
            Some(session) => session_entries(*map).contains_key(token@) && session_entries(
                *map,
            )[token@] == session,
            None => !session_entries(*map).contains_key(token@),
        },
{
    map.get(token).map(|entry| entry.value().clone())
}

/// Trusted: `dashmap::DashMap::remove` takes the entry of the token out, if
/// there is one, and leaves every other entry.
#[verifier::external_body]
fn sessions_remove(map: &mut dashmap::DashMap<String, Session>, token: &str)
    ensures
        session_entries(*final(map)) == session_entries(*old(map)).remove(token@),
{
    map.remove(token);
}

/// The session store: sessions by their opaque token, in memory.
///
/// Reads share the store; writes take it exclusively, so the program that
/// shares it between requests guards it for the length of one call.
pub struct SessionDB {
    sessions: dashmap::DashMap<String, Session>,
}

impl View for SessionDB {
    type V = Map<Seq<char>, Session>;

    closed spec fn view(&self) -> Map<Seq<char>, Session> {
        session_entries(self.sessions)
    }
}

/// The session that a read of `token` at `now` sees: the stored one, unless
/// it is expired.
pub open spec fn live_session(sessions: Map<Seq<char>, Session>, token: Seq<char>, now: i64) -> Option<
    Session,
> {
    if sessions.contains_key(token) && !sessions[token].spec_expired_at(now) {
        Some(sessions[token])
    } else {
        None
    }
}

impl SessionDB {
    /// The empty store.
    pub fn new() -> (db: SessionDB)
        ensures
            db@ == (Map::<Seq<char>, Session>::empty()),
    {
        SessionDB { sessions: sessions_new() }
    }

    /// Stores `session` under `token`.
    pub fn put(&mut self, token: String, session: Session)
        ensures
            final(self)@ == old(self)@.insert(token@, session),
    {
        sessions_insert(&mut self.sessions, token, session);
    }

    /// The session stored under `token`, expired or not.
    pub fn stored(&self, token: &str) -> (r: Option<Session>)
        ensures
            match r {
                Some(session) => self@.contains_key(token@) && self@[token@] == session,
                None => !self@.contains_key(token@),
            },
    {
        sessions_get(&self.sessions, token)
    }

    /// The session a request with `token` acts under at `now`: an expired
    /// session counts as absent, though its entry is still stored.
    pub fn get(&self, token: &str, now: i64) -> (r: Option<Session>)
        ensures
            r == live_session(self@, token@, now),
    {
        match sessions_get(&self.sessions, token) {
            Some(session) => if session.expired_at(now) {
                None
            } else {
                Some(session)
            },
            None => None,
        }
    }

    /// Takes the entry of `token` out, if there is one.
    pub fn remove(&mut self, token: &str)
        ensures
            final(self)@ == old(self)@.remove(token@),
    {
        sessions_remove(&mut self.sessions, token);
    }

    /// Like `get`, and takes the entry out where it is expired.
    pub fn get_or_purge(&mut self, token: &str, now: i64) -> (r: Option<Session>)
        ensures
            r == live_session(old(self)@, token@, now),
            final(self)@ == if old(self)@.contains_key(token@) && old(self)@[token@].spec_expired_at(
                now,
            ) {
                old(self)@.remove(token@)
            } else {
                old(self)@
            },
    {
        match sessions_get(&self.sessions, token) {
            Some(session) => if session.expired_at(now) {
                sessions_remove(&mut self.sessions, token);
                None
            } else {
                Some(session)
            },
            None => None,
        }
    }
}

/// An expired session is absent to every read, whatever the store holds
/// for its token; a session that is not expired is read as it was stored.
pub proof fn lemma_expired_session_is_absent(
    sessions: Map<Seq<char>, Session>,
    token: Seq<char>,
    session: Session,
    now: i64,
)
    ensures
        session.expires <= now ==> live_session(sessions.insert(token, session), token, now).is_none(),
        session.expires > now ==> live_session(sessions.insert(token, session), token, now) == Some(
            session,
        ),
        live_session(sessions.remove(token), token, now).is_none(),
{
}

} // verus!
