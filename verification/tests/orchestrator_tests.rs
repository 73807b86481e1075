//! Tests of the session orchestrator: the sequence of steps it asks for and
//! the guarantee that an opened session is always closed.

use qbit_rename::orchestrator::{AuthOutcome, FetchOutcome, Orchestrator, RenameOutcome, Step};

#[test]
fn empty_rule_responds_no_content_without_any_call() {
    let (_orch, step) = Orchestrator::start(String::new(), true);
    match step {
        Step::Respond { response, deauthenticate } => {
            assert_eq!(response.status, 204);
            assert!(response.message.is_empty());
            assert!(!deauthenticate);
        },
        _ => panic!("an empty rule must be answered at once"),
    }
}

#[test]
fn credentials_configured_authenticates_first() {
    let (_orch, step) = Orchestrator::start("E(\\d+)@3".to_string(), true);
    assert!(matches!(step, Step::Authenticate));
}

#[test]
fn auth_network_failure_is_bad_gateway_with_nothing_to_close() {
    let (mut orch, _step) = Orchestrator::start("E(\\d+)@3".to_string(), true);
    let step = orch.on_authenticated(AuthOutcome::Unreachable("connection refused".to_string()));
    match step {
        Step::Respond { response, deauthenticate } => {
            assert_eq!(response.status, 502);
            assert!(response.message.contains("connection refused"));
            assert!(!deauthenticate);
        },
        _ => panic!("an unreachable gateway must be answered at once"),
    }
}

#[test]
fn rejected_credentials_answer_invalid_credentials() {
    let (mut orch, _step) = Orchestrator::start("E(\\d+)@3".to_string(), true);
    let step = orch.on_authenticated(AuthOutcome::Rejected);
    match step {
        Step::Respond { response, deauthenticate } => {
            assert_eq!(response.status, 400);
            assert_eq!(response.message, "Invalid credentials");
            assert!(!deauthenticate);
        },
        _ => panic!("rejected credentials must be answered at once"),
    }
}

#[test]
fn fetch_failure_after_login_closes_session_and_reports_status() {
    // An authenticated session opens; the fetch fails with 404; the answer is
    // a 400 whose message carries the remote status, and the session is still
    // closed.
    let (mut orch, step) = Orchestrator::start("E(\\d+)@3".to_string(), true);
    assert!(matches!(step, Step::Authenticate));
    let step = orch.on_authenticated(AuthOutcome::Accepted);
    assert!(matches!(step, Step::FetchFilename));
    assert!(orch.has_open_session());
    let step = orch.on_filenames(FetchOutcome::HttpFailure(404));
    match step {
        Step::Respond { response, deauthenticate } => {
            assert_eq!(response.status, 400);
            assert!(response.message.contains("404"));
            assert!(deauthenticate);
        },
        _ => panic!("a failed fetch must be answered at once"),
    }
}

#[test]
fn unauthenticated_mode_never_authenticates_or_deauthenticates() {
    // With no credentials configured the only steps are fetch, rename and the
    // answer, and no de-authentication is dispatched anywhere.
    let (orch, step) = Orchestrator::start("E(\\d+)@3".to_string(), false);
    assert!(matches!(step, Step::FetchFilename));
    assert!(!orch.uses_login());
    assert!(!orch.has_open_session());
    let step = orch.on_filenames(FetchOutcome::Filenames(vec!["Show.S01E05.mkv".to_string()]));
    let (old_path, new_path) = match step {
        Step::Rename { old_path, new_path } => (old_path, new_path),
        _ => panic!("a fetched filename must lead to the rename"),
    };
    assert_eq!(old_path, "Show.S01E05.mkv");
    assert_eq!(new_path, "Show.S01E8.mkv");
    let step = orch.on_renamed(RenameOutcome::Renamed);
    match step {
        Step::Respond { response, deauthenticate } => {
            assert_eq!(response.status, 200);
            assert!(!deauthenticate);
        },
        _ => panic!("a successful rename must be answered"),
    }
}

#[test]
fn authenticated_success_path_closes_session_at_the_end() {
    let (mut orch, _step) = Orchestrator::start("E(\\d+)@3".to_string(), true);
    let _ = orch.on_authenticated(AuthOutcome::Accepted);
    let step = orch.on_filenames(FetchOutcome::Filenames(vec!["Show.S01E05.mkv".to_string()]));
    assert!(matches!(step, Step::Rename { .. }));
    let step = orch.on_renamed(RenameOutcome::Renamed);
    match step {
        Step::Respond { response, deauthenticate } => {
            assert_eq!(response.status, 200);
            assert!(deauthenticate);
        },
        _ => panic!("a successful rename must be answered"),
    }
}

#[test]
fn transform_failure_closes_session_and_reports_it() {
    let (mut orch, _step) = Orchestrator::start("foo".to_string(), true);
    let _ = orch.on_authenticated(AuthOutcome::Accepted);
    let step = orch.on_filenames(FetchOutcome::Filenames(vec!["Show.S01E05.mkv".to_string()]));
    match step {
        Step::Respond { response, deauthenticate } => {
            assert_eq!(response.status, 400);
            assert!(response.message.contains("Invalid tag"));
            assert!(response.message.contains("foo"));
            assert!(deauthenticate);
        },
        _ => panic!("a transform failure must be answered at once"),
    }
}

#[test]
fn empty_file_list_is_an_invalid_response() {
    let (orch, _step) = Orchestrator::start("E(\\d+)@3".to_string(), false);
    let step = orch.on_filenames(FetchOutcome::Filenames(Vec::new()));
    match step {
        Step::Respond { response, deauthenticate } => {
            assert_eq!(response.status, 400);
            assert!(response.message.contains("empty file list"));
            assert!(!deauthenticate);
        },
        _ => panic!("an empty file list must be answered at once"),
    }
}

#[test]
fn fetch_network_failure_is_bad_gateway() {
    let (orch, _step) = Orchestrator::start("E(\\d+)@3".to_string(), false);
    let step = orch.on_filenames(FetchOutcome::Unreachable("timed out".to_string()));
    match step {
        Step::Respond { response, deauthenticate } => {
            assert_eq!(response.status, 502);
            assert!(response.message.contains("timed out"));
            assert!(!deauthenticate);
        },
        _ => panic!("an unreachable gateway must be answered at once"),
    }
}

#[test]
fn malformed_body_is_an_invalid_response() {
    let (orch, _step) = Orchestrator::start("E(\\d+)@3".to_string(), false);
    let step = orch.on_filenames(FetchOutcome::MalformedBody("missing field name".to_string()));
    match step {
        Step::Respond { response, deauthenticate } => {
            assert_eq!(response.status, 400);
            assert!(response.message.contains("missing field name"));
            assert!(!deauthenticate);
        },
        _ => panic!("a malformed body must be answered at once"),
    }
}

#[test]
fn rename_failure_reports_remote_status() {
    let (mut orch, _step) = Orchestrator::start("E(\\d+)@3".to_string(), true);
    let _ = orch.on_authenticated(AuthOutcome::Accepted);
    let _ = orch.on_filenames(FetchOutcome::Filenames(vec!["Show.S01E05.mkv".to_string()]));
    let step = orch.on_renamed(RenameOutcome::HttpFailure(409));
    match step {
        Step::Respond { response, deauthenticate } => {
            assert_eq!(response.status, 400);
            assert!(response.message.contains("409"));
            assert!(deauthenticate);
        },
        _ => panic!("a failed rename must be answered at once"),
    }
}
