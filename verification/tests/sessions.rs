use uosql_webclient::errors::{connect_error_message, exec_error_message, ConnectError, ExecError};
use uosql_webclient::gate::{classify_request, finish_login, invalid_session_message,
    missing_fields_message, plan_login, Credentials, GateState, LoginDecision, LoginResult};
use uosql_webclient::net::test_bind;
use uosql_webclient::registry::{Checkout, GetOrCreate, SessionRegistry};

fn creds(user: &str, password: &str) -> Credentials {
    Credentials {
        user: user.to_string(),
        password: password.to_string(),
        bind: None,
        port: None,
    }
}

#[test]
fn fresh_registry_resumes_nothing() {
    let reg = SessionRegistry::new();
    assert!(!reg.is_exhausted());
    assert_eq!(reg.resume(&"alice".to_string()), None);
    assert!(matches!(reg.get_or_create(&"alice".to_string()), GetOrCreate::ConnectRequired));
}

#[test]
fn install_then_reuse_returns_same_handle() {
    let mut reg = SessionRegistry::new();
    let tok = "alice".to_string();
    let (id, created) = reg.install(&tok);
    assert!(created);
    // a second login for the same token needs no backend call and finds
    // the very same connection
    assert_eq!(reg.get_or_create(&tok), GetOrCreate::Existing(id));
    assert_eq!(reg.resume(&tok), Some(id));
    let (id2, created2) = reg.install(&tok);
    assert_eq!(id2, id);
    assert!(!created2);
}

#[test]
fn distinct_sessions_get_distinct_handles() {
    let mut reg = SessionRegistry::new();
    let (a, _) = reg.install(&"alice".to_string());
    let (b, _) = reg.install(&"bob".to_string());
    assert_ne!(a, b);
}

#[test]
fn remove_forgets_the_token() {
    let mut reg = SessionRegistry::new();
    let tok = "alice".to_string();
    let (id, _) = reg.install(&tok);
    assert_eq!(reg.remove(&tok), Some(id));
    assert_eq!(reg.resume(&tok), None);
    assert!(matches!(reg.checkout(&tok), Checkout::NotFound));
    // a new login connects afresh and gets a new entry
    assert!(matches!(reg.get_or_create(&tok), GetOrCreate::ConnectRequired));
    let (id2, created) = reg.install(&tok);
    assert!(created);
    assert_ne!(id2, id);
}

#[test]
fn remove_unknown_token_reports_not_found() {
    let mut reg = SessionRegistry::new();
    assert_eq!(reg.remove(&"ghost".to_string()), None);
}

#[test]
fn checkout_serializes_one_session() {
    let mut reg = SessionRegistry::new();
    let tok = "alice".to_string();
    let (id, _) = reg.install(&tok);
    assert!(matches!(reg.checkout(&tok), Checkout::Granted(g) if g == id));
    // while the first checkout is outstanding a second one is refused
    assert!(matches!(reg.checkout(&tok), Checkout::Busy));
    reg.release(&tok);
    assert!(matches!(reg.checkout(&tok), Checkout::Granted(g) if g == id));
}

#[test]
fn sessions_are_isolated() {
    let mut reg = SessionRegistry::new();
    let alice = "alice".to_string();
    let bob = "bob".to_string();
    let (a, _) = reg.install(&alice);
    let (b, _) = reg.install(&bob);
    // an outstanding checkout of one session leaves the other fully usable
    assert!(matches!(reg.checkout(&alice), Checkout::Granted(_)));
    assert!(matches!(reg.checkout(&bob), Checkout::Granted(g) if g == b));
    // and removing one leaves the other bound
    reg.release(&alice);
    assert_eq!(reg.remove(&alice), Some(a));
    assert_eq!(reg.resume(&bob), Some(b));
}

#[test]
fn classify_without_token_prompts_login() {
    let reg = SessionRegistry::new();
    assert!(matches!(classify_request(&reg, None), GateState::Unauthenticated));
}

#[test]
fn classify_bound_token_authenticates() {
    let mut reg = SessionRegistry::new();
    let tok = "alice".to_string();
    reg.install(&tok);
    match classify_request(&reg, Some(&tok)) {
        GateState::Authenticated(t) => assert_eq!(t, tok),
        _ => panic!("expected an authenticated session"),
    }
}

#[test]
fn classify_unknown_token_is_stale() {
    let reg = SessionRegistry::new();
    let tok = "expired".to_string();
    assert!(matches!(classify_request(&reg, Some(&tok)), GateState::Stale));
    assert_eq!(invalid_session_message(), "Invalid Session");
}

#[test]
fn login_with_empty_username_is_refused() {
    let reg = SessionRegistry::new();
    let tok = "whatever".to_string();
    let r = plan_login(&reg, &creds("", "secret"), &tok);
    assert!(matches!(r, LoginDecision::MissingFields));
    assert_eq!(missing_fields_message(), "Not all required fields given");
}

#[test]
fn login_with_empty_password_is_refused() {
    let reg = SessionRegistry::new();
    let tok = "whatever".to_string();
    assert!(matches!(plan_login(&reg, &creds("ada", ""), &tok), LoginDecision::MissingFields));
}

#[test]
fn login_defaults_to_loopback_and_fixed_port() {
    let reg = SessionRegistry::new();
    let tok = "ada".to_string();
    match plan_login(&reg, &creds("ada", "secret"), &tok) {
        LoginDecision::Connect { host, port } => {
            assert_eq!(host, "127.0.0.1");
            assert_eq!(port, 4242);
        }
        _ => panic!("expected a connect decision"),
    }
}

#[test]
fn login_honours_host_and_port_overrides() {
    let reg = SessionRegistry::new();
    let tok = "ada".to_string();
    let c = Credentials {
        user: "ada".to_string(),
        password: "secret".to_string(),
        bind: Some("192.168.0.17".to_string()),
        port: Some(9000),
    };
    match plan_login(&reg, &c, &tok) {
        LoginDecision::Connect { host, port } => {
            assert_eq!(host, "192.168.0.17");
            assert_eq!(port, 9000);
        }
        _ => panic!("expected a connect decision"),
    }
}

#[test]
fn login_with_bound_token_reuses_without_connect() {
    let mut reg = SessionRegistry::new();
    let tok = "ada".to_string();
    let (id, _) = reg.install(&tok);
    assert!(matches!(plan_login(&reg, &creds("ada", "secret"), &tok),
        LoginDecision::Reuse(r) if r == id));
}

#[test]
fn failed_connect_creates_no_entry_and_later_login_succeeds() {
    let mut reg = SessionRegistry::new();
    let tok = "ada".to_string();
    let r = finish_login(&mut reg, &tok, Err(ConnectError::AuthenticationFailed));
    match r {
        LoginResult::Failed(e) => {
            assert_eq!(connect_error_message(&e), "Authentication failed.");
        }
        _ => panic!("expected the login to fail"),
    }
    assert_eq!(reg.resume(&tok), None);
    // resubmitting with correct credentials connects and succeeds
    let r2 = finish_login(&mut reg, &tok, Ok(()));
    match r2 {
        LoginResult::LoggedIn { conn_id, created } => {
            assert!(created);
            assert_eq!(reg.resume(&tok), Some(conn_id));
        }
        _ => panic!("expected the login to succeed"),
    }
}

#[test]
fn connect_error_messages_are_fixed() {
    assert_eq!(
        connect_error_message(&ConnectError::AddressParse),
        "Could not connect to specified server."
    );
    assert_eq!(
        connect_error_message(&ConnectError::IoFailure),
        "Connection failure. Try again later."
    );
    assert_eq!(
        connect_error_message(&ConnectError::DecodeFailure),
        "Could not read data from server."
    );
    assert_eq!(
        connect_error_message(&ConnectError::EncodeFailure),
        "Could not send data to server."
    );
    assert_eq!(connect_error_message(&ConnectError::UnexpectedPacket), "Unexpected Package.");
    assert_eq!(connect_error_message(&ConnectError::ServerError), "Network Error.");
}

#[test]
fn exec_error_messages_are_fixed() {
    assert_eq!(
        exec_error_message(&ExecError::IoFailure),
        "Connection failure. Try again later."
    );
    assert_eq!(exec_error_message(&ExecError::DecodeFailure), "Could not read data from server.");
    assert_eq!(exec_error_message(&ExecError::EncodeFailure), "Could not send data to server.");
    assert_eq!(
        exec_error_message(&ExecError::UnexpectedPacket),
        "Received unexpected package."
    );
    assert_eq!(exec_error_message(&ExecError::ServerError), "Server error.");
}

#[test]
fn test_bind_accepts_well_formed_addresses() {
    assert!(test_bind("127.0.0.1"));
    assert!(test_bind("0.0.0.0"));
    assert!(test_bind("255.255.255.255"));
    assert!(test_bind("192.168.0.17"));
}

#[test]
fn test_bind_rejects_malformed_addresses() {
    assert!(!test_bind(""));
    assert!(!test_bind("localhost"));
    assert!(!test_bind("1.2.3"));
    assert!(!test_bind("1.2.3.4.5"));
    assert!(!test_bind("256.0.0.1"));
    assert!(!test_bind("01.2.3.4"));
    assert!(!test_bind("1..2.3"));
    assert!(!test_bind("1.2.3."));
    assert!(!test_bind(".1.2.3"));
    assert!(!test_bind("a.b.c.d"));
    assert!(!test_bind("1.2.3.1000"));
}
