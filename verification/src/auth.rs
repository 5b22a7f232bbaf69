//! The sign-in flow: what to ask the identity provider next, and what to
//! answer the client, after each of the provider's replies.

use vstd::prelude::*;
use vstd::string::*;

use crate::config::Config;
use crate::error::{
    RespError, RespErrorView, WrapRespErr, BAD_REQUEST, INTERNAL_SERVER_ERROR, UNAUTHORIZED,
};
use crate::session::{session_token, SessionState, User, UserView, SESSION_LIFETIME};

verus! {

/// Where the provider's authorization endpoint is.
pub fn authorize_url() -> (url: &'static str)
    ensures
        url@ == "https://discord.com/oauth2/authorize"@,
{
    "https://discord.com/oauth2/authorize"
}

/// Where the provider exchanges a code for an access token.
pub fn token_url() -> (url: &'static str)
    ensures
        url@ == "https://discord.com/api/oauth2/token"@,
{
    "https://discord.com/api/oauth2/token"
}

/// The path, below the public URL, that the provider redirects back to.
pub fn redirect_path() -> (path: &'static str)
    ensures
        path@ == "auth/authorized"@,
{
    "auth/authorized"
}

/// The scopes that the service asks for: the user's identity and the user's
/// membership records.
pub fn requested_scopes() -> (scopes: [&'static str; 2])
    ensures
        scopes[0]@ == "identify"@,
        scopes[1]@ == "guilds.members.read"@,
{
    ["identify", "guilds.members.read"]
}

/// Where the provider tells who the bearer of a token is.
pub open spec fn profile_url() -> Seq<char> {
    "https://discord.com/api/users/@me"@
}

/// Where the provider tells what the bearer is in the guild `guild_id`.
pub open spec fn membership_url(guild_id: Seq<char>) -> Seq<char> {
    "https://discord.com/api/users/@me/guilds/"@ + guild_id + "/member"@
}

/// The `Set-Cookie` value that hands `token` to the client, bound to
/// `domain`.
pub open spec fn session_cookie(token: Seq<char>, domain: Seq<char>) -> Seq<char> {
    "session="@ + token + "; SameSite=Lax; Path=/; Domain="@ + domain
}

/// How a request to the provider's API went wrong.
#[derive(Debug, Clone, Copy, PartialEq, Eq, Structural)]
pub enum FetchFault {
    /// The request could not be sent or no reply came.
    Request,
    /// The provider replied with an error status.
    Status,
    /// The body of the reply could not be read.
    Read,
    /// The body is not the document that was expected.
    Parse,
}

/// The code could not be exchanged for an access token.
#[derive(Debug, Clone, Copy, PartialEq, Eq, Structural)]
pub struct ExchangeFault;

/// A reply of the identity provider.
#[derive(Debug, PartialEq, Eq)]
pub enum AuthEvent {
    /// The code was exchanged, for this access token.
    Exchanged(Result<String, ExchangeFault>),
    /// The profile was fetched: the user's name.
    Profile(Result<String, FetchFault>),
    /// The membership record was fetched: the member's role ids.
    Membership(Result<Vec<String>, FetchFault>),
}

/// What the flow wants done next.
#[derive(Debug, PartialEq, Eq)]
pub enum AuthAction {
    /// Exchange this authorization code for an access token.
    Exchange { code: String },
    /// GET the user's profile at `url`, with `access_token` as bearer.
    FetchProfile { url: String, access_token: String },
    /// GET the user's membership record at `url`, with `access_token` as
    /// bearer.
    FetchMembership { url: String, access_token: String },
    /// Redirect the client to the root page and set this cookie.
    Grant { cookie: String },
    /// Answer the client with this failure; no token is issued.
    Reject(RespError),
}

/// How far a sign-in has come.
#[derive(Debug, PartialEq, Eq)]
pub enum AuthFlow {
    /// The code is being exchanged.
    PendingExchange,
    /// The profile is being fetched with this access token.
    PendingProfile { access_token: String },
    /// The membership record of this user is being fetched.
    PendingMembership { access_token: String, username: String },
    /// A session was granted.
    Authenticated,
    /// The sign-in failed.
    Rejected,
}

/// An [`AuthEvent`] as mathematical values.
pub ghost enum AuthEventView {
    Exchanged(Result<Seq<char>, ExchangeFault>),
    Profile(Result<Seq<char>, FetchFault>),
    Membership(Result<Seq<Seq<char>>, FetchFault>),
}

/// An [`AuthAction`] as mathematical values.
pub ghost enum AuthActionView {
    Exchange { code: Seq<char> },
    FetchProfile { url: Seq<char>, access_token: Seq<char> },
    FetchMembership { url: Seq<char>, access_token: Seq<char> },
    Grant { cookie: Seq<char> },
    Reject(RespErrorView),
}

/// An [`AuthFlow`] as mathematical values.
pub ghost enum AuthFlowView {
    PendingExchange,
    PendingProfile { access_token: Seq<char> },
    PendingMembership { access_token: Seq<char>, username: Seq<char> },
    Authenticated,
    Rejected,
}

impl View for AuthEvent {
    type V = AuthEventView;

    open spec fn view(&self) -> AuthEventView {
        match *self {
            AuthEvent::Exchanged(Ok(token)) => AuthEventView::Exchanged(Ok(token@)),
            AuthEvent::Exchanged(Err(e)) => AuthEventView::Exchanged(Err(e)),
            AuthEvent::Profile(Ok(name)) => AuthEventView::Profile(Ok(name@)),
            AuthEvent::Profile(Err(e)) => AuthEventView::Profile(Err(e)),
            AuthEvent::Membership(Ok(roles)) => AuthEventView::Membership(Ok(roles.deep_view())),
            AuthEvent::Membership(Err(e)) => AuthEventView::Membership(Err(e)),
        }
    }
}

impl View for AuthAction {
    type V = AuthActionView;

    open spec fn view(&self) -> AuthActionView {
        match *self {
            AuthAction::Exchange { code } => AuthActionView::Exchange { code: code@ },
            AuthAction::FetchProfile { url, access_token } => AuthActionView::FetchProfile {
                url: url@,
                access_token: access_token@,
            },
            AuthAction::FetchMembership { url, access_token } => AuthActionView::FetchMembership {
                url: url@,
                access_token: access_token@,
            },
            AuthAction::Grant { cookie } => AuthActionView::Grant { cookie: cookie@ },
            AuthAction::Reject(e) => AuthActionView::Reject(e@),
        }
    }
}

impl View for AuthFlow {
    type V = AuthFlowView;

    open spec fn view(&self) -> AuthFlowView {
        match *self {
            AuthFlow::PendingExchange => AuthFlowView::PendingExchange,
            AuthFlow::PendingProfile { access_token } => AuthFlowView::PendingProfile {
                access_token: access_token@,
            },
            AuthFlow::PendingMembership { access_token, username } => {
                AuthFlowView::PendingMembership { access_token: access_token@, username: username@ }
            },
            AuthFlow::Authenticated => AuthFlowView::Authenticated,
            AuthFlow::Rejected => AuthFlowView::Rejected,
        }
    }
}

/// A rejection with the given status and message.
pub open spec fn rejection(status: int, message: Seq<char>) -> (AuthFlowView, AuthActionView) {
    (AuthFlowView::Rejected, AuthActionView::Reject(RespErrorView { status, message }))
}

/// What the client is told when the profile request failed with `fault`.
pub open spec fn profile_failure(fault: FetchFault) -> RespErrorView {
    match fault {
        FetchFault::Request => RespErrorView {
            status: INTERNAL_SERVER_ERROR as int,
            message: "failed to request Discord"@,
        },
        FetchFault::Status => RespErrorView {
            status: INTERNAL_SERVER_ERROR as int,
            message: "Discord returned error response from user API"@,
        },
        FetchFault::Read => RespErrorView {
            status: INTERNAL_SERVER_ERROR as int,
            message: "failed to read Discord user API response"@,
        },
        FetchFault::Parse => RespErrorView {
            status: INTERNAL_SERVER_ERROR as int,
            message: "failed to parse Discord user API response"@,
        },
    }
}

/// What the client is told when the membership request failed with `fault`:
/// an error status or an unreadable record says that the user is no member.
pub open spec fn membership_failure(fault: FetchFault) -> RespErrorView {
    match fault {
        FetchFault::Request => RespErrorView {
            status: INTERNAL_SERVER_ERROR as int,
            message: "failed to request Discord"@,
        },
        FetchFault::Status => RespErrorView {
            status: UNAUTHORIZED as int,
            message: "Discord return error response from guild API"@,
        },
        FetchFault::Read => RespErrorView {
            status: INTERNAL_SERVER_ERROR as int,
            message: "failed to read Discord guild API response"@,
        },
        FetchFault::Parse => RespErrorView {
            status: UNAUTHORIZED as int,
            message: "failed to parse Discord guild API response"@,
        },
    }
}

/// The end of a sign-in whose user holds the role: `signed` is what signing
/// the claim gave.
pub open spec fn conclusion(
    username: Seq<char>,
    now: int,
    domain: Seq<char>,
    signed: Option<Seq<char>>,
) -> (AuthFlowView, AuthActionView) {
    if User::expiry_after(now) > i64::MAX {
        rejection(INTERNAL_SERVER_ERROR as int, "session expiry is out of range"@)
    } else {
        match signed {
            Some(token) => (
                AuthFlowView::Authenticated,
                AuthActionView::Grant { cookie: session_cookie(token, domain) },
            ),
            None => rejection(INTERNAL_SERVER_ERROR as int, "failed to sign session token"@),
        }
    }
}

/// The flow's transition: from the state `flow` and the provider's reply
/// `event`, at second `now`, to the next state and what to do. `signed` is
/// what signing the claim gives, and is read only where a session is due.
pub open spec fn transition(
    flow: AuthFlowView,
    event: AuthEventView,
    guild_id: Seq<char>,
    role_id: Seq<char>,
    domain: Seq<char>,
    now: int,
    signed: Option<Seq<char>>,
) -> (AuthFlowView, AuthActionView) {
    match (flow, event) {
        (AuthFlowView::PendingExchange, AuthEventView::Exchanged(Ok(access_token))) => (
            AuthFlowView::PendingProfile { access_token },
            AuthActionView::FetchProfile { url: profile_url(), access_token },
        ),
        (AuthFlowView::PendingExchange, AuthEventView::Exchanged(Err(_))) => rejection(
            BAD_REQUEST as int,
            "failed to authorize"@,
        ),
        (AuthFlowView::PendingProfile { access_token }, AuthEventView::Profile(Ok(username))) => (
            AuthFlowView::PendingMembership { access_token, username },
            AuthActionView::FetchMembership { url: membership_url(guild_id), access_token },
        ),
        (AuthFlowView::PendingProfile { .. }, AuthEventView::Profile(Err(fault))) => (
            AuthFlowView::Rejected,
            AuthActionView::Reject(profile_failure(fault)),
        ),
        (
            AuthFlowView::PendingMembership { username, .. },
            AuthEventView::Membership(Ok(roles)),
        ) => if roles.contains(role_id) {
            conclusion(username, now, domain, signed)
        } else {
            rejection(UNAUTHORIZED as int, "You does not have desired role"@)
        },
        (AuthFlowView::PendingMembership { .. }, AuthEventView::Membership(Err(fault))) => (
            AuthFlowView::Rejected,
            AuthActionView::Reject(membership_failure(fault)),
        ),
        _ => rejection(INTERNAL_SERVER_ERROR as int, "reply does not answer the pending request"@),
    }
}

/// Where the client of a sign-in in the state `flow` stands.
pub open spec fn flow_state(flow: AuthFlowView) -> SessionState {
    match flow {
        AuthFlowView::Authenticated => SessionState::Authenticated,
        AuthFlowView::Rejected => SessionState::Unauthenticated,
        _ => SessionState::PendingExchange,
    }
}

/// The token that a sign-in of `username` at second `now` is due.
pub open spec fn due_token(username: Seq<char>, now: int, secret: Seq<u8>) -> Seq<char> {
    session_token(UserView { username, exp: User::expiry_after(now) }, secret)
}

/// The user that a state waits to sign in, if it is that far.
pub open spec fn pending_user(flow: AuthFlowView) -> Seq<char> {
    match flow {
        AuthFlowView::PendingMembership { username, .. } => username,
        _ => Seq::empty(),
    }
}

/// Whether `roles` holds `role`.
pub fn has_role(roles: &Vec<String>, role: &String) -> (found: bool)
    ensures
        found == roles.deep_view().contains(role@),
{
    let mut i: usize = 0;
    while i < roles.len()
        invariant
            i <= roles.len(),
            forall|j: int| 0 <= j < i ==> roles.deep_view()[j] != role@,
        decreases roles.len() - i,
    {
        if roles[i] == *role {
            assert(roles.deep_view()[i as int] == role@);
            return true;
        }
        i += 1;
    }
    false
}

/// The URL of the membership record in the guild `guild_id`.
pub fn membership_url_for(guild_id: &str) -> (url: String)
    ensures
        url@ == membership_url(guild_id@),
{
    String::from_str("https://discord.com/api/users/@me/guilds/").concat(guild_id).concat("/member")
}

/// The `Set-Cookie` value for `token`, bound to `domain`.
pub fn session_cookie_for(token: &str, domain: &str) -> (cookie: String)
    ensures
        cookie@ == session_cookie(token@, domain@),
{
    String::from_str("session=").concat(token).concat("; SameSite=Lax; Path=/; Domain=").concat(
        domain,
    )
}

fn reject(status: u16, message: &str) -> (r: (AuthFlow, AuthAction))
    ensures
        (r.0@, r.1@) == rejection(status as int, message@),
{
    (AuthFlow::Rejected, AuthAction::Reject(RespError::new(status, message)))
}

fn reject_profile(fault: FetchFault) -> (r: (AuthFlow, AuthAction))
    ensures
        r.0@ == AuthFlowView::Rejected,
        r.1@ == AuthActionView::Reject(profile_failure(fault)),
{
    match fault {
        FetchFault::Request => reject(INTERNAL_SERVER_ERROR, "failed to request Discord"),
        FetchFault::Status => reject(
            INTERNAL_SERVER_ERROR,
            "Discord returned error response from user API",
        ),
        FetchFault::Read => reject(
            INTERNAL_SERVER_ERROR,
            "failed to read Discord user API response",
        ),
        FetchFault::Parse => reject(
            INTERNAL_SERVER_ERROR,
            "failed to parse Discord user API response",
        ),
    }
}

fn reject_membership(fault: FetchFault) -> (r: (AuthFlow, AuthAction))
    ensures
        r.0@ == AuthFlowView::Rejected,
        r.1@ == AuthActionView::Reject(membership_failure(fault)),
{
    match fault {
        FetchFault::Request => reject(INTERNAL_SERVER_ERROR, "failed to request Discord"),
        FetchFault::Status => reject(UNAUTHORIZED, "Discord return error response from guild API"),
        FetchFault::Read => reject(
            INTERNAL_SERVER_ERROR,
            "failed to read Discord guild API response",
        ),
        FetchFault::Parse => reject(UNAUTHORIZED, "failed to parse Discord guild API response"),
    }
}

impl AuthFlow {
    /// Where the client of this sign-in stands.
    pub fn session_state(&self) -> (state: SessionState)
        ensures
            state == flow_state(self@),
    {
        match self {
            AuthFlow::Authenticated => SessionState::Authenticated,
            AuthFlow::Rejected => SessionState::Unauthenticated,
            _ => SessionState::PendingExchange,
        }
    }

    /// Starts a sign-in with the authorization code that the provider sent
    /// the client back with.
    pub fn begin(code: String) -> (r: (AuthFlow, AuthAction))
        ensures
            r.0@ == AuthFlowView::PendingExchange,
            r.1@ == (AuthActionView::Exchange { code: code@ }),
    {
        (AuthFlow::PendingExchange, AuthAction::Exchange { code })
    }

    /// Ends a sign-in of `username`, who holds the role, at second `now`:
    /// `signed` is what signing the claim gave.
    pub fn conclude(username: &str, now: i64, domain: &str, signed: Option<String>) -> (r: (
        AuthFlow,
        AuthAction,
    ))
        ensures
            (r.0@, r.1@) == conclusion(
                username@,
                now as int,
                domain@,
                match signed {
                    Some(token) => Some(token@),
                    None => None,
                },
            ),
    {
        if now > i64::MAX - SESSION_LIFETIME {
            reject(INTERNAL_SERVER_ERROR, "session expiry is out of range")
        } else {
            match signed {
                Some(token) => (
                    AuthFlow::Authenticated,
                    AuthAction::Grant { cookie: session_cookie_for(token.as_str(), domain) },
                ),
                None => reject(INTERNAL_SERVER_ERROR, "failed to sign session token"),
            }
        }
    }

    /// Takes the provider's reply `event` at second `now` and says what to do
    /// next. A member who holds the configured role is granted a session, and
    /// the cookie carries the token that is due; every failure and every
    /// reply that does not answer the pending request ends the sign-in
    /// without a token.
    pub fn step(self, event: AuthEvent, config: &Config, now: i64) -> (r: (AuthFlow, AuthAction))
        ensures
            (r.0@, r.1@) == transition(
                self@,
                event@,
                config.discord_guild_id@,
                config.discord_guild_role_id@,
                config.public_domain@,
                now as int,
                Some(due_token(pending_user(self@), now as int, config.jwt_secret@)),
            ),
    {
        match (self, event) {
            (AuthFlow::PendingExchange, AuthEvent::Exchanged(exchanged)) => {
                match exchanged.wrap_resp_err(BAD_REQUEST, "failed to authorize") {
                    Ok(access_token) => {
                        let bearer = access_token.clone();
                        (
                            AuthFlow::PendingProfile { access_token },
                            AuthAction::FetchProfile {
                                url: String::from_str("https://discord.com/api/users/@me"),
                                access_token: bearer,
                            },
                        )
                    },
                    Err((e, _)) => (AuthFlow::Rejected, AuthAction::Reject(e)),
                }
            },
            (AuthFlow::PendingProfile { access_token }, AuthEvent::Profile(fetched)) => {
                match fetched {
                    Ok(username) => {
                        let bearer = access_token.clone();
                        (
                            AuthFlow::PendingMembership { access_token, username },
                            AuthAction::FetchMembership {
                                url: membership_url_for(config.discord_guild_id.as_str()),
                                access_token: bearer,
                            },
                        )
                    },
                    Err(fault) => reject_profile(fault),
                }
            },
            (AuthFlow::PendingMembership { username, .. }, AuthEvent::Membership(fetched)) => {
                match fetched {
                    Ok(roles) => {
                        if has_role(&roles, &config.discord_guild_role_id) {
                            let signed = match User::starting_at(username.as_str(), now) {
                                Some(user) => user.sign(config.jwt_secret.as_slice()),
                                None => None,
                            };
                            AuthFlow::conclude(
                                username.as_str(),
                                now,
                                config.public_domain.as_str(),
                                signed,
                            )
                        } else {
                            reject(UNAUTHORIZED, "You does not have desired role")
                        }
                    },
                    Err(fault) => reject_membership(fault),
                }
            },
            _ => reject(INTERNAL_SERVER_ERROR, "reply does not answer the pending request"),
        }
    }
}

/// The flow issues a token only as the last step of a sign-in whose every
/// request succeeded and whose member holds the configured role.
pub proof fn lemma_grant_needs_role(
    flow: AuthFlowView,
    event: AuthEventView,
    guild_id: Seq<char>,
    role_id: Seq<char>,
    domain: Seq<char>,
    now: int,
    signed: Option<Seq<char>>,
)
    requires
        transition(flow, event, guild_id, role_id, domain, now, signed).1 is Grant,
    ensures
        flow is PendingMembership,
        event matches AuthEventView::Membership(Ok(roles)) && roles.contains(role_id),
        transition(flow, event, guild_id, role_id, domain, now, signed).0
            == AuthFlowView::Authenticated,
        signed is Some,
{
}

/// Whatever fails, the sign-in ends rejected: no state but the one that
/// grants is reached by a rejection, and a rejection issues no token.
pub proof fn lemma_failure_rejects(
    flow: AuthFlowView,
    event: AuthEventView,
    guild_id: Seq<char>,
    role_id: Seq<char>,
    domain: Seq<char>,
    now: int,
    signed: Option<Seq<char>>,
)
    ensures
        transition(flow, event, guild_id, role_id, domain, now, signed).1 is Reject
            <==> transition(flow, event, guild_id, role_id, domain, now, signed).0
            == AuthFlowView::Rejected,
        transition(flow, event, guild_id, role_id, domain, now, signed).1 is Grant
            <==> transition(flow, event, guild_id, role_id, domain, now, signed).0
            == AuthFlowView::Authenticated,
        (flow is Authenticated || flow is Rejected) ==> transition(
            flow,
            event,
            guild_id,
            role_id,
            domain,
            now,
            signed,
        ).1 is Reject,
{
}

/// Once the code was exchanged and the profile and the membership record
/// were fetched, the role decides: a member whose roles hold the configured
/// role, as a whole and at any place, is granted the session whose cookie
/// carries the token that is due; a member without it is told that it is not
/// authorised, and gets no token.
pub proof fn lemma_role_decides(
    access_token: Seq<char>,
    username: Seq<char>,
    roles: Seq<Seq<char>>,
    guild_id: Seq<char>,
    role_id: Seq<char>,
    domain: Seq<char>,
    secret: Seq<u8>,
    now: int,
)
    requires
        User::expiry_after(now) <= i64::MAX,
    ensures
        ({
            let flow = AuthFlowView::PendingMembership { access_token, username };
            let event = AuthEventView::Membership(Ok(roles));
            let token = due_token(username, now, secret);
            let end = transition(flow, event, guild_id, role_id, domain, now, Some(token));
            &&& end.1 is Grant <==> exists|i: int| 0 <= i < roles.len() && roles[i] == role_id
            &&& roles.contains(role_id) ==> end == (
                AuthFlowView::Authenticated,
                AuthActionView::Grant { cookie: session_cookie(token, domain) },
            )
            &&& !roles.contains(role_id) ==> end == rejection(
                UNAUTHORIZED as int,
                "You does not have desired role"@,
            )
            &&& token == session_token(UserView { username, exp: now + SESSION_LIFETIME }, secret)
        }),
{
}

} // verus!
