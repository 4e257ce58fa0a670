use regreet::dispatch::{react, InputMode, Reaction};
use regreet::protocol::{AuthMessageType, ErrorType, Response};

fn auth_message(kind: AuthMessageType, text: &str) -> Response {
    Response::AuthMessage { auth_message_type: kind, auth_message: text.to_string() }
}

#[test]
fn success_starts_the_session() {
    assert!(matches!(react(&Response::Success), Reaction::StartSession));
}

#[test]
fn secret_and_visible_prompts_are_trimmed() {
    match react(&auth_message(AuthMessageType::Secret, "Password: \n")) {
        Reaction::Prompt { mode, prompt } => {
            assert_eq!(mode, InputMode::Secret);
            assert_eq!(prompt, "Password:");
        }
        _ => panic!("expected a prompt"),
    }
    match react(&auth_message(AuthMessageType::Visible, " Login:\t")) {
        Reaction::Prompt { mode, prompt } => {
            assert_eq!(mode, InputMode::Visible);
            assert_eq!(prompt, " Login:");
        }
        _ => panic!("expected a prompt"),
    }
}

#[test]
fn info_is_shown_and_acknowledged() {
    match react(&auth_message(AuthMessageType::Info, "touch the sensor ")) {
        Reaction::Inform { message } => assert_eq!(message, "touch the sensor "),
        _ => panic!("expected an info"),
    }
}

#[test]
fn auth_error_message_is_capitalized() {
    match react(&auth_message(AuthMessageType::Error, "account locked")) {
        Reaction::ReportAndAcknowledge { message } => assert_eq!(message, "Account locked"),
        _ => panic!("expected an error report"),
    }
    match react(&auth_message(AuthMessageType::Error, "")) {
        Reaction::ReportAndAcknowledge { message } => assert_eq!(message, ""),
        _ => panic!("expected an error report"),
    }
}

#[test]
fn auth_failure_cancels_and_generic_error_does_not() {
    let auth = Response::Error {
        error_type: ErrorType::AuthError,
        description: "pam_authenticate: AUTH_ERR".to_string(),
    };
    match react(&auth) {
        Reaction::LoginFailed { message, cancel } => {
            assert_eq!(message, "Login failed: Pam_authenticate: AUTH_ERR");
            assert!(cancel);
        }
        _ => panic!("expected a failure"),
    }
    let generic = Response::Error { error_type: ErrorType::Error, description: "éclair".to_string() };
    match react(&generic) {
        Reaction::LoginFailed { message, cancel } => {
            assert_eq!(message, "Login failed: éclair");
            assert!(!cancel);
        }
        _ => panic!("expected a failure"),
    }
}
