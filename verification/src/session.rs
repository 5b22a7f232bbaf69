//! The session claim, the signed token that carries it, and the check that
//! every protected route makes before it serves a request.

use vstd::prelude::*;
use vstd::string::*;

use crate::error::UNAUTHORIZED;

verus! {

/// Seconds for which a session stays valid after it was issued.
pub const SESSION_LIFETIME: i64 = 86_400;

/// Name of the cookie that carries the session token.
pub open spec fn cookie_name() -> Seq<char> {
    "session"@
}

/// Name of the cookie that carries the session token.
pub fn session_cookie_name() -> (name: &'static str)
    ensures
        name@ == cookie_name(),
{
    "session"
}

/// Name of the claim that holds the user's name.
pub open spec fn username_claim() -> Seq<char> {
    "username"@
}

/// Name of the claim that holds the expiry.
pub open spec fn expiry_claim() -> Seq<char> {
    "exp"@
}

/// The compact token that the token library makes of the default header
/// (HS256) and the two claims `text` under `text_key` and `number` under
/// `number_key`, in that order, with `secret` as the HMAC key.
pub uninterp spec fn hs256_token(
    text_key: Seq<char>,
    text: Seq<char>,
    number_key: Seq<char>,
    number: int,
    secret: Seq<u8>,
) -> Seq<char>;

/// The text claim `text_key` and the integer claim `number_key` that the
/// token library reads off `token` when it verifies it against the HMAC key
/// `secret` under its default validation without the comparison of the
/// expiry with the clock; `None` where the library rejects the token or
/// either claim is missing or of another type.
pub uninterp spec fn hs256_claims(
    token: Seq<char>,
    text_key: Seq<char>,
    number_key: Seq<char>,
    secret: Seq<u8>,
) -> Option<(Seq<char>, int)>;

/// The identity that a session token carries.
#[derive(Debug, PartialEq, Eq)]
pub struct User {
    pub username: String,
    /// Second, counted from the Unix epoch, after which the session is over.
    pub exp: i64,
}

/// What a [`User`] holds, as mathematical values.
pub ghost struct UserView {
    pub username: Seq<char>,
    pub exp: int,
}

impl View for User {
    type V = UserView;

    open spec fn view(&self) -> UserView {
        UserView { username: self.username@, exp: self.exp as int }
    }
}

impl Clone for User {
    fn clone(&self) -> (copy: Self)
        ensures
            copy@ == self@,
    {
        User { username: self.username.clone(), exp: self.exp }
    }
}

/// Why a request carries no usable session.
#[derive(Debug, Clone, Copy, PartialEq, Eq, Structural)]
pub enum SessionError {
    /// The request has no session cookie.
    Missing,
    /// The token is malformed, lacks a claim or was not signed with the secret.
    Invalid,
    /// The token is genuine and its expiry has passed.
    Expired,
}

/// How a route answers a request without a usable session.
#[derive(Debug, Clone, Copy, PartialEq, Eq, Structural)]
pub enum RouteClass {
    /// A page: the client is sent back to the root page.
    Browser,
    /// An API call: the client is told that it is not authorised.
    Api,
}

/// What is decided for one request of a protected route.
#[derive(Debug, PartialEq, Eq)]
pub enum Admission {
    /// The request goes on to the route, on behalf of this user.
    Proceed(User),
    /// The client is redirected to the root page.
    Redirect,
    /// The client gets status 401.
    Deny,
}

/// An [`Admission`] as mathematical values.
pub ghost enum AdmissionView {
    Proceed(UserView),
    Redirect,
    Deny,
}

impl View for Admission {
    type V = AdmissionView;

    open spec fn view(&self) -> AdmissionView {
        match *self {
            Admission::Proceed(user) => AdmissionView::Proceed(user@),
            Admission::Redirect => AdmissionView::Redirect,
            Admission::Deny => AdmissionView::Deny,
        }
    }
}

/// Where a client stands with the service.
#[derive(Debug, Clone, Copy, PartialEq, Eq, Structural)]
pub enum SessionState {
    /// The client has no session and has asked for none.
    Unauthenticated,
    /// The client was sent to the identity provider, or has come back with a
    /// code that is being exchanged.
    PendingExchange,
    /// The client holds a token that is genuine and has not expired.
    Authenticated,
    /// The client holds a genuine token whose expiry has passed; only a new
    /// sign-in gives a new session.
    Expired,
}

/// The token that carries `user`, signed with `secret`.
pub open spec fn session_token(user: UserView, secret: Seq<u8>) -> Seq<char> {
    hs256_token(username_claim(), user.username, expiry_claim(), user.exp, secret)
}

/// The claim that `token` carries, if `secret` signed it.
pub open spec fn session_claims(token: Seq<char>, secret: Seq<u8>) -> Option<UserView> {
    match hs256_claims(token, username_claim(), expiry_claim(), secret) {
        Some((username, exp)) => Some(UserView { username, exp }),
        None => None,
    }
}

/// The session that a verified claim stands for at second `now`: none where
/// the token did not verify, an expired one once `exp` lies before `now`.
pub open spec fn admitted(claim: Option<UserView>, now: int) -> Result<UserView, SessionError> {
    match claim {
        None => Err(SessionError::Invalid),
        Some(user) => if user.exp < now {
            Err(SessionError::Expired)
        } else {
            Ok(user)
        },
    }
}

/// The session that a request with the session cookie `cookie` has at second
/// `now`, under the signing secret `secret`.
pub open spec fn session_of(cookie: Option<Seq<char>>, secret: Seq<u8>, now: int) -> Result<
    UserView,
    SessionError,
> {
    match cookie {
        None => Err(SessionError::Missing),
        Some(token) => admitted(session_claims(token, secret), now),
    }
}

/// Whether a request with this session is served.
pub open spec fn passes(session: Result<UserView, SessionError>) -> bool {
    session is Ok
}

/// `Result<User, SessionError>` as mathematical values.
pub open spec fn session_view(session: Result<User, SessionError>) -> Result<
    UserView,
    SessionError,
> {
    match session {
        Ok(user) => Ok(user@),
        Err(e) => Err(e),
    }
}

/// `Option<User>` as mathematical values.
pub open spec fn claim_view(claim: Option<User>) -> Option<UserView> {
    match claim {
        Some(user) => Some(user@),
        None => None,
    }
}

/// Calls `jsonwebtoken::encode` with the default header (HS256), a JSON object
/// of the two given claims in the order given, and `secret` as the HMAC key.
/// The contract says that a token comes back, and names it: with an HMAC key
/// and the HS256 header the key fits the algorithm, a JSON object of a text
/// and an integer is serialised without error, and the HMAC signature is
/// computed without error, so that `encode` has no failing path.
#[verifier::external_body]
fn encode_hs256(text_key: &str, text: &str, number_key: &str, number: i64, secret: &[u8]) -> (token:
    Option<String>)
    ensures
        token is Some,
        token->0@ == hs256_token(text_key@, text@, number_key@, number as int, secret@),
{
    let mut claims = serde_json::Map::new();
    claims.insert(text_key.to_string(), serde_json::Value::from(text));
    claims.insert(number_key.to_string(), serde_json::Value::from(number));
    let key = jsonwebtoken::EncodingKey::from_secret(secret);
    jsonwebtoken::encode(&jsonwebtoken::Header::default(), &claims, &key).ok()
}

/// Calls `jsonwebtoken::decode` with `secret` as the HMAC key and the default
/// validation (HS256, `exp` required) but for the comparison of `exp` with
/// the clock, which is switched off; then reads the two claims off the JSON
/// object with `serde_json::Value::get`, `as_str` and `as_i64`. The contract
/// names what came back, a failure of any of these calls included.
#[verifier::external_body]
fn decode_hs256(token: &str, text_key: &str, number_key: &str, secret: &[u8]) -> (claims: Option<
    (String, i64),
>)
    ensures
        match claims {
            Some((text, number)) => hs256_claims(token@, text_key@, number_key@, secret@) == Some(
                (text@, number as int),
            ),
            None => hs256_claims(token@, text_key@, number_key@, secret@) is None,
        },
{
    let mut validation = jsonwebtoken::Validation::default();
    validation.validate_exp = false;
    let key = jsonwebtoken::DecodingKey::from_secret(secret);
    let data = jsonwebtoken::decode::<serde_json::Value>(token, &key, &validation).ok()?;
    let text = data.claims.get(text_key)?.as_str()?.to_string();
    let number = data.claims.get(number_key)?.as_i64()?;
    Some((text, number))
}

impl User {
    /// The second at which a session issued at `now` ends.
    pub open spec fn expiry_after(now: int) -> int {
        now + SESSION_LIFETIME
    }

    /// A claim for `username` that ends one session lifetime after `now`;
    /// none where that second does not fit the claim.
    pub fn starting_at(username: &str, now: i64) -> (user: Option<User>)
        ensures
            match user {
                Some(u) => User::expiry_after(now as int) <= i64::MAX && u@ == (UserView {
                    username: username@,
                    exp: User::expiry_after(now as int),
                }),
                None => User::expiry_after(now as int) > i64::MAX,
            },
    {
        if now <= i64::MAX - SESSION_LIFETIME {
            Some(User { username: String::from_str(username), exp: now + SESSION_LIFETIME })
        } else {
            None
        }
    }

    /// Signs this claim with `secret`: the token that carries the claim
    /// always comes back.
    pub fn sign(&self, secret: &[u8]) -> (token: Option<String>)
        ensures
            token is Some,
            token->0@ == session_token(self@, secret@),
    {
        encode_hs256("username", self.username.as_str(), "exp", self.exp, secret)
    }

    /// The claim that `token` carries, if `secret` signed it. The expiry is
    /// not looked at.
    pub fn verify(token: &str, secret: &[u8]) -> (claim: Option<User>)
        ensures
            claim_view(claim) == session_claims(token@, secret@),
    {
        match decode_hs256(token, "username", "exp", secret) {
            Some((username, exp)) => Some(User { username, exp }),
            None => None,
        }
    }

    /// Decides on a verified claim at second `now`: a claim whose `exp` lies
    /// before `now` is expired, any other is the session's user.
    pub fn validate(claim: Option<User>, now: i64) -> (session: Result<User, SessionError>)
        ensures
            session_view(session) == admitted(claim_view(claim), now as int),
    {
        match claim {
            None => Err(SessionError::Invalid),
            Some(user) => if user.exp < now {
                Err(SessionError::Expired)
            } else {
                Ok(user)
            },
        }
    }

    /// The session of a request: `cookie` is the value of its session cookie,
    /// `secret` the signing secret, `now` the current second.
    pub fn from_request(cookie: Option<&str>, secret: &[u8], now: i64) -> (session: Result<
        User,
        SessionError,
    >)
        ensures
            session_view(session) == session_of(
                match cookie {
                    Some(token) => Some(token@),
                    None => None,
                },
                secret@,
                now as int,
            ),
    {
        match cookie {
            None => Err(SessionError::Missing),
            Some(token) => User::validate(User::verify(token, secret), now),
        }
    }
}

/// What is decided on a request with the session `session` to a route of
/// class `class`: with a session it proceeds; without, a browser route
/// redirects and an API route denies.
pub open spec fn admission(class: RouteClass, session: Result<UserView, SessionError>)
    -> AdmissionView {
    match session {
        Ok(user) => AdmissionView::Proceed(user),
        Err(_) => match class {
            RouteClass::Browser => AdmissionView::Redirect,
            RouteClass::Api => AdmissionView::Deny,
        },
    }
}

/// Where a client with the session `session` stands.
pub open spec fn state_of(session: Result<UserView, SessionError>) -> SessionState {
    match session {
        Ok(_) => SessionState::Authenticated,
        Err(SessionError::Expired) => SessionState::Expired,
        Err(_) => SessionState::Unauthenticated,
    }
}

/// Decides on a request: one with a session proceeds; one without is
/// redirected on a browser route and denied on an API route.
pub fn guard(class: RouteClass, session: Result<User, SessionError>) -> (decision: Admission)
    ensures
        decision@ == admission(class, session_view(session)),
        session matches Ok(user) ==> decision == Admission::Proceed(user),
{
    match session {
        Ok(user) => Admission::Proceed(user),
        Err(_) => match class {
            RouteClass::Browser => Admission::Redirect,
            RouteClass::Api => Admission::Deny,
        },
    }
}

/// Where a client with this session stands.
pub fn session_state(session: &Result<User, SessionError>) -> (state: SessionState)
    ensures
        state == state_of(session_view(*session)),
{
    match session {
        Ok(_) => SessionState::Authenticated,
        Err(SessionError::Expired) => SessionState::Expired,
        Err(_) => SessionState::Unauthenticated,
    }
}

/// Answers "who am I": the user's name, or status 401 without a session.
pub fn get_username(user: Option<User>) -> (r: Result<String, u16>)
    ensures
        match user {
            Some(u) => r == Ok::<String, u16>(u.username),
            None => r == Err::<String, u16>(UNAUTHORIZED),
        },
{
    match user {
        Some(user) => Ok(user.username),
        None => Err(UNAUTHORIZED),
    }
}

/// A token whose expiry has passed opens no session, whatever it was signed
/// with, and so is served by no protected route, whatever the route's class.
pub proof fn lemma_expired_token_is_rejected(
    token: Seq<char>,
    secret: Seq<u8>,
    now: int,
    class: RouteClass,
)
    requires
        session_claims(token, secret) matches Some(user) && user.exp < now,
    ensures
        session_of(Some(token), secret, now) == Err::<UserView, SessionError>(
            SessionError::Expired,
        ),
        !passes(session_of(Some(token), secret, now)),
        !(admission(class, session_of(Some(token), secret, now)) is Proceed),
        state_of(session_of(Some(token), secret, now)) == SessionState::Expired,
{
}

/// A token that the secret signed and whose expiry has not passed opens the
/// session of the user it names, on a route of either class.
pub proof fn lemma_live_token_is_accepted(
    token: Seq<char>,
    secret: Seq<u8>,
    now: int,
    class: RouteClass,
)
    requires
        session_claims(token, secret) matches Some(user) && now <= user.exp,
    ensures
        session_of(Some(token), secret, now) == Ok::<UserView, SessionError>(
            session_claims(token, secret)->0,
        ),
        passes(session_of(Some(token), secret, now)),
        admission(class, session_of(Some(token), secret, now)) == AdmissionView::Proceed(
            session_claims(token, secret)->0,
        ),
        state_of(session_of(Some(token), secret, now)) == SessionState::Authenticated,
{
}

/// A token that does not verify under the secret opens no session at any
/// time, and a request without a cookie has none.
pub proof fn lemma_unverified_token_is_rejected(
    token: Seq<char>,
    secret: Seq<u8>,
    now: int,
    class: RouteClass,
)
    requires
        session_claims(token, secret) is None,
    ensures
        session_of(Some(token), secret, now) == Err::<UserView, SessionError>(
            SessionError::Invalid,
        ),
        session_of(None, secret, now) == Err::<UserView, SessionError>(SessionError::Missing),
        !(admission(class, session_of(Some(token), secret, now)) is Proceed),
        !(admission(class, session_of(None, secret, now)) is Proceed),
{
}

/// Nothing renews a session: a token that has expired stays expired at every
/// later time, and a token is accepted at a time only if it was accepted at
/// every earlier one.
pub proof fn lemma_expiry_is_final(token: Seq<char>, secret: Seq<u8>, now: int, later: int)
    requires
        now <= later,
    ensures
        state_of(session_of(Some(token), secret, now)) == SessionState::Expired ==> state_of(
            session_of(Some(token), secret, later),
        ) == SessionState::Expired,
        passes(session_of(Some(token), secret, later)) ==> passes(
            session_of(Some(token), secret, now),
        ),
{
}

} // verus!
