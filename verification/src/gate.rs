//! Authentication gate: the decision layer in front of the session registry.
//!
//! Every inbound request is classified by its session token: no token means
//! an unauthenticated request, a token bound in the registry resumes its
//! session, and a well-formed token the registry does not know is stale —
//! never silently logged in again. A login submission is validated, then
//! decided against the registry; the backend `connect` that a new session
//! needs is the caller's outside work, and its outcome is handed back to
//! `finish_login`, which records a session only on success.
//!
//! Session tokens are opaque here; minting them, with enough entropy, is
//! the caller's concern.

use vstd::prelude::*;
use vstd::string::*;

use crate::errors::ConnectError;
use crate::registry::GetOrCreate;
use crate::registry::SessionRegistry;

verus! {

/// A login submission: required user and password, optional host and port
/// overrides for the backend.
pub struct Credentials {
    pub user: String,
    pub password: String,
    pub bind: Option<String>,
    pub port: Option<u16>,
}

/// Where one request stands in the authentication flow.
pub enum GateState {
    Unauthenticated,
    Authenticated(String),
    Stale,
}

/// Decision on a validated login: reuse the session's bound connection, or
/// connect to the backend at the given address first.
pub enum LoginDecision {
    MissingFields,
    Reuse(u64),
    Connect { host: String, port: u16 },
}

/// Outcome of a login once the backend has answered.
pub enum LoginResult {
    LoggedIn { conn_id: u64, created: bool },
    Failed(ConnectError),
}

/// A submission is complete when both required fields are non-empty.
pub open spec fn valid_credentials(c: Credentials) -> bool {
    c.user@.len() > 0 && c.password@.len() > 0
}

/// The backend host a login connects to: the override when one is given and
/// non-empty, else the loopback default.
pub open spec fn spec_host(bind: Option<String>) -> Seq<char> {
    match bind {
        Option::Some(h) => if h@.len() > 0 {
            h@
        } else {
            "127.0.0.1"@
        },
        Option::None => "127.0.0.1"@,
    }
}

/// The backend port a login connects to: the override, else the default.
pub open spec fn spec_port(p: Option<u16>) -> u16 {
    match p {
        Option::Some(x) => x,
        Option::None => 4242,
    }
}

/// Routes a request by its session token: no token prompts a login, a bound
/// token authenticates, an unknown token is stale and is answered with an
/// explicit invalid-session outcome — never a silent re-login.
pub fn classify_request(reg: &SessionRegistry, token: Option<&String>) -> (s: GateState)
    requires
        reg.wf(),
    ensures
        match token {
            Option::None => s is Unauthenticated,
            Option::Some(t) => if reg.has_token(t@) {
                s == GateState::Authenticated(*t)
            } else {
                s is Stale
            },
        },
{
    match token {
        None => GateState::Unauthenticated,
        Some(t) => match reg.resume(t) {
            Some(_) => GateState::Authenticated(t.clone()),
            None => GateState::Stale,
        },
    }
}

/// Validates a login submission and decides what it needs. Incomplete
/// credentials are refused outright — the registry is not even consulted. A
/// token already bound reuses its connection with no backend call; only an
/// unbound token asks for a `connect`, to the resolved host and port.
pub fn plan_login(reg: &SessionRegistry, creds: &Credentials, token: &String) -> (r: LoginDecision)
    requires
        reg.wf(),
    ensures
        (r is MissingFields) <==> !valid_credentials(*creds),
        valid_credentials(*creds) && reg.has_token(token@) ==> r == LoginDecision::Reuse(
            reg.conn_id_of(token@),
        ),
        valid_credentials(*creds) && !reg.has_token(token@) ==> (r matches LoginDecision::Connect {
            host,
            port,
        } && host@ == spec_host(creds.bind) && port == spec_port(creds.port)),
{
    if creds.user.as_str().is_empty() || creds.password.as_str().is_empty() {
        return LoginDecision::MissingFields;
    }
    match reg.get_or_create(token) {
        GetOrCreate::Existing(id) => LoginDecision::Reuse(id),
        GetOrCreate::ConnectRequired => {
            let host = match &creds.bind {
                Some(h) => if h.as_str().is_empty() {
                    String::from_str("127.0.0.1")
                } else {
                    h.clone()
                },
                None => String::from_str("127.0.0.1"),
            };
            let port = match creds.port {
                Some(p) => p,
                None => 4242,
            };
            LoginDecision::Connect { host, port }
        },
    }
}

/// Records the outcome of the backend `connect` a login asked for. On
/// failure the registry is left exactly as it was — no entry is cached for a
/// failed attempt — and the error is handed back for the user-facing message
/// table. On success the session is installed (or found already installed)
/// and its connection handle returned.
pub fn finish_login(reg: &mut SessionRegistry, token: &String, connected: Result<
    (),
    ConnectError,
>) -> (r: LoginResult)
    requires
        old(reg).wf(),
        !old(reg).ids_exhausted(),
    ensures
        final(reg).wf(),
        connected matches Err(e) ==> r == LoginResult::Failed(e) && *final(reg) == *old(reg),
        connected is Ok ==> (r matches LoginResult::LoggedIn { conn_id, created }
            && final(reg).has_token(token@) && conn_id == final(reg).conn_id_of(token@) && created
            == !old(reg).has_token(token@) && (old(reg).has_token(token@) ==> conn_id == old(
            reg,
        ).conn_id_of(token@))),
        connected is Ok ==> forall|u: Seq<char>|
            u != token@ ==> final(reg).has_token(u) == old(reg).has_token(u),
        connected is Ok ==> forall|u: Seq<char>|
            u != token@ && old(reg).has_token(u) ==> final(reg).conn_id_of(u) == old(
                reg,
            ).conn_id_of(u),
{
    match connected {
        Err(e) => LoginResult::Failed(e),
        Ok(()) => {
            let (conn_id, created) = reg.install(token);
            LoginResult::LoggedIn { conn_id, created }
        },
    }
}

/// The user-facing error for an incomplete login submission.
pub fn missing_fields_message() -> (r: &'static str)
    ensures
        r@ == "Not all required fields given"@,
{
    "Not all required fields given"
}

/// The user-facing error for a stale session token.
pub fn invalid_session_message() -> (r: &'static str)
    ensures
        r@ == "Invalid Session"@,
{
    "Invalid Session"
}

} // verus!
