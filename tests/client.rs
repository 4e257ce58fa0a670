use regreet::client::{AuthStatus, ClientError, GreetdClient, Operation};
use regreet::demo::demo_response;
use regreet::protocol::{AuthMessageType, ErrorType, Request, Response};

fn round_trip_demo(client: &mut GreetdClient, request: Request) -> Response {
    let response = demo_response(&request);
    client.receive(response).unwrap()
}

fn is_secret_prompt(resp: &Response, text: &str) -> bool {
    matches!(resp, Response::AuthMessage { auth_message_type: AuthMessageType::Secret, auth_message }
        if auth_message == text)
}

#[test]
fn demo_script_accepts_otp_then_password() {
    let mut client = GreetdClient::new();
    let req = client.create_session("anyuser").unwrap();
    let resp = round_trip_demo(&mut client, req);
    assert!(is_secret_prompt(&resp, "One-Time Password:"));
    assert_eq!(*client.get_auth_status(), AuthStatus::InProgress);

    let req = client.send_auth_response(Some("0248".to_string())).unwrap();
    let resp = round_trip_demo(&mut client, req);
    assert!(is_secret_prompt(&resp, "Password:"));
    assert_eq!(*client.get_auth_status(), AuthStatus::InProgress);

    let req = client.send_auth_response(Some("pass".to_string())).unwrap();
    let resp = round_trip_demo(&mut client, req);
    assert!(matches!(resp, Response::Success));
    assert_eq!(*client.get_auth_status(), AuthStatus::Done);
}

#[test]
fn demo_script_rejects_wrong_password() {
    let mut client = GreetdClient::new();
    let req = client.create_session("anyuser").unwrap();
    round_trip_demo(&mut client, req);
    let req = client.send_auth_response(Some("0248".to_string())).unwrap();
    round_trip_demo(&mut client, req);
    let req = client.send_auth_response(Some("wrong".to_string())).unwrap();
    let resp = round_trip_demo(&mut client, req);
    match resp {
        Response::Error { error_type, description } => {
            assert_eq!(error_type, ErrorType::AuthError);
            assert_eq!(description, "pam_authenticate: AUTH_ERR");
        }
        _ => panic!("expected an error"),
    }
    assert_eq!(*client.get_auth_status(), AuthStatus::InProgress);
}

#[test]
fn demo_script_rejects_missing_input() {
    let resp = demo_response(&Request::PostAuthMessageResponse { response: None });
    assert!(matches!(resp, Response::Error { error_type: ErrorType::AuthError, .. }));
    assert!(matches!(demo_response(&Request::CancelSession), Response::Success));
}

#[test]
fn passwordless_login_then_start() {
    let mut client = GreetdClient::new();
    match client.create_session("alice").unwrap() {
        Request::CreateSession { username } => assert_eq!(username, "alice"),
        _ => panic!("expected a create_session request"),
    }
    assert!(matches!(client.receive(Response::Success), Ok(Response::Success)));
    assert_eq!(*client.get_auth_status(), AuthStatus::Done);

    let req = client.start_session(vec!["/bin/bash".to_string()], vec![]).unwrap();
    match req {
        Request::StartSession { cmd, env } => {
            assert_eq!(cmd, vec!["/bin/bash".to_string()]);
            assert!(env.is_empty());
        }
        _ => panic!("expected a start_session request"),
    }
    assert!(matches!(client.receive(Response::Success), Ok(Response::Success)));
    assert_eq!(*client.get_auth_status(), AuthStatus::Done);
    assert_eq!(client.pending_operation(), None);
}

#[test]
fn auth_message_after_start_is_a_protocol_violation() {
    let mut client = GreetdClient::new();
    client.create_session("alice").unwrap();
    client.receive(Response::Success).unwrap();
    client.start_session(vec!["/bin/bash".to_string()], vec![]).unwrap();
    let resp = Response::AuthMessage {
        auth_message_type: AuthMessageType::Visible,
        auth_message: "Login:".to_string(),
    };
    assert!(matches!(client.receive(resp), Err(ClientError::UnexpectedAuthMessage)));
}

#[test]
fn auth_message_after_cancel_is_a_protocol_violation() {
    let mut client = GreetdClient::new();
    client.create_session("alice").unwrap();
    client.receive(Response::Success).unwrap();
    client.cancel_session().unwrap();
    let resp = Response::AuthMessage {
        auth_message_type: AuthMessageType::Info,
        auth_message: "hello".to_string(),
    };
    assert!(matches!(client.receive(resp), Err(ClientError::UnexpectedAuthMessage)));
    assert_eq!(*client.get_auth_status(), AuthStatus::NotStarted);
}

#[test]
fn start_session_before_authentication_is_refused() {
    let mut client = GreetdClient::new();
    assert!(matches!(client.start_session(vec![], vec![]), Err(ClientError::NotAuthenticated)));
    client.create_session("bob").unwrap();
    let prompt = Response::AuthMessage {
        auth_message_type: AuthMessageType::Secret,
        auth_message: "Password:".to_string(),
    };
    client.receive(prompt).unwrap();
    assert_eq!(*client.get_auth_status(), AuthStatus::InProgress);
    assert!(matches!(client.start_session(vec![], vec![]), Err(ClientError::NotAuthenticated)));
    assert_eq!(client.pending_operation(), None);
}

#[test]
fn cancel_resets_from_every_status() {
    let mut client = GreetdClient::new();
    client.cancel_session().unwrap();
    client.transport_failed();
    assert_eq!(*client.get_auth_status(), AuthStatus::NotStarted);

    client.create_session("carol").unwrap();
    client
        .receive(Response::AuthMessage {
            auth_message_type: AuthMessageType::Secret,
            auth_message: "Password:".to_string(),
        })
        .unwrap();
    assert!(matches!(client.cancel_session(), Ok(Request::CancelSession)));
    client
        .receive(Response::Error { error_type: ErrorType::Error, description: "x".to_string() })
        .unwrap();
    assert_eq!(*client.get_auth_status(), AuthStatus::NotStarted);

    client.create_session("carol").unwrap();
    client.receive(Response::Success).unwrap();
    assert_eq!(*client.get_auth_status(), AuthStatus::Done);
    assert!(client.needs_cancel());
    client.cancel_session().unwrap();
    client.transport_failed();
    assert_eq!(*client.get_auth_status(), AuthStatus::NotStarted);
    assert!(!client.needs_cancel());
}

#[test]
fn busy_cancel_changes_nothing() {
    let mut client = GreetdClient::new();
    client.create_session("frank").unwrap();
    client.receive(Response::Success).unwrap();
    client.start_session(vec!["sh".to_string()], vec![]).unwrap();
    assert!(matches!(client.cancel_session(), Err(ClientError::Busy)));
    assert_eq!(*client.get_auth_status(), AuthStatus::Done);
    assert_eq!(client.pending_operation(), Some(Operation::StartSession));
}

#[test]
fn next_operation_follows_status() {
    let mut client = GreetdClient::new();
    assert_eq!(client.next_operation(), Operation::CreateSession);
    client.create_session("gina").unwrap();
    client
        .receive(Response::AuthMessage {
            auth_message_type: AuthMessageType::Visible,
            auth_message: "Name:".to_string(),
        })
        .unwrap();
    assert_eq!(client.next_operation(), Operation::SendAuthResponse);
    client.send_auth_response(Some("g".to_string())).unwrap();
    client.receive(Response::Success).unwrap();
    assert_eq!(client.next_operation(), Operation::StartSession);
}

#[test]
fn equal_runs_give_equal_status() {
    let run = |client: &mut GreetdClient| {
        client.create_session("hal").unwrap();
        client
            .receive(Response::AuthMessage {
                auth_message_type: AuthMessageType::Info,
                auth_message: "touch".to_string(),
            })
            .unwrap();
        client.send_auth_response(None).unwrap();
        client
            .receive(Response::Error { error_type: ErrorType::AuthError, description: "no".into() })
            .unwrap();
        *client.get_auth_status()
    };
    let mut a = GreetdClient::new();
    let mut b = GreetdClient::new();
    assert_eq!(run(&mut a), AuthStatus::InProgress);
    assert_eq!(run(&mut b), AuthStatus::InProgress);
}

#[test]
fn one_request_in_flight_at_a_time() {
    let mut client = GreetdClient::new();
    client.create_session("dave").unwrap();
    assert_eq!(client.pending_operation(), Some(Operation::CreateSession));
    assert!(matches!(client.create_session("dave"), Err(ClientError::Busy)));
    assert!(matches!(client.send_auth_response(None), Err(ClientError::Busy)));
    assert!(matches!(client.cancel_session(), Err(ClientError::Busy)));
    client.transport_failed();
    assert_eq!(client.pending_operation(), None);
    assert!(matches!(client.receive(Response::Success), Err(ClientError::NoPendingRequest)));
}

#[test]
fn create_session_error_keeps_not_started() {
    let mut client = GreetdClient::new();
    client.create_session("eve").unwrap();
    client
        .receive(Response::Error { error_type: ErrorType::Error, description: "no".to_string() })
        .unwrap();
    assert_eq!(*client.get_auth_status(), AuthStatus::NotStarted);
}

#[test]
fn auth_error_while_in_progress_stays_in_progress() {
    let mut client = GreetdClient::new();
    client.create_session("eve").unwrap();
    client
        .receive(Response::AuthMessage {
            auth_message_type: AuthMessageType::Secret,
            auth_message: "Password:".to_string(),
        })
        .unwrap();
    let req = client.send_auth_response(Some("nope".to_string())).unwrap();
    assert!(matches!(req, Request::PostAuthMessageResponse { response: Some(ref r) } if r == "nope"));
    client
        .receive(Response::Error {
            error_type: ErrorType::AuthError,
            description: "bad".to_string(),
        })
        .unwrap();
    assert_eq!(*client.get_auth_status(), AuthStatus::InProgress);
}
