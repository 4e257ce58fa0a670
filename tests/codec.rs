use regreet::codec::{decode_response, encode_request, DecodeError};
use regreet::protocol::{AuthMessageType, ErrorType, Request, Response};
use regreet::wire::{decode_frame, encode_frame, FrameError};

fn broker_reads(frame: &[u8]) -> greetd_ipc::Request {
    let body = decode_frame(frame).unwrap();
    serde_json::from_slice(&body).unwrap()
}

fn broker_writes(response: &greetd_ipc::Response) -> Vec<u8> {
    encode_frame(&serde_json::to_vec(response).unwrap()).unwrap()
}

#[test]
fn create_session_bytes() {
    let frame = encode_request(&Request::CreateSession { username: "alice".to_string() }).unwrap();
    let json = br#"{"type":"create_session","username":"alice"}"#;
    assert_eq!(&frame[..4], &[0, 0, 0, json.len() as u8]);
    assert_eq!(&frame[4..], &json[..]);
}

#[test]
fn requests_round_trip_through_a_mock_broker() {
    match broker_reads(&encode_request(&Request::CreateSession { username: "bob".into() }).unwrap()) {
        greetd_ipc::Request::CreateSession { username } => assert_eq!(username, "bob"),
        other => panic!("unexpected {other:?}"),
    }
    let req = Request::PostAuthMessageResponse { response: Some("pa\"ss\n".into()) };
    match broker_reads(&encode_request(&req).unwrap()) {
        greetd_ipc::Request::PostAuthMessageResponse { response } => {
            assert_eq!(response.as_deref(), Some("pa\"ss\n"))
        }
        other => panic!("unexpected {other:?}"),
    }
    let req = Request::PostAuthMessageResponse { response: None };
    match broker_reads(&encode_request(&req).unwrap()) {
        greetd_ipc::Request::PostAuthMessageResponse { response } => assert_eq!(response, None),
        other => panic!("unexpected {other:?}"),
    }
    let req = Request::StartSession { cmd: vec!["/bin/bash".into()], env: vec!["A=b".into()] };
    match broker_reads(&encode_request(&req).unwrap()) {
        greetd_ipc::Request::StartSession { cmd, env } => {
            assert_eq!(cmd, vec!["/bin/bash".to_string()]);
            assert_eq!(env, vec!["A=b".to_string()]);
        }
        other => panic!("unexpected {other:?}"),
    }
    assert!(matches!(
        broker_reads(&encode_request(&Request::CancelSession).unwrap()),
        greetd_ipc::Request::CancelSession
    ));
}

#[test]
fn responses_round_trip_from_a_mock_broker() {
    assert!(matches!(
        decode_response(&broker_writes(&greetd_ipc::Response::Success)),
        Ok(Response::Success)
    ));
    let err = greetd_ipc::Response::Error {
        error_type: greetd_ipc::ErrorType::AuthError,
        description: "pam_authenticate: AUTH_ERR".into(),
    };
    match decode_response(&broker_writes(&err)).unwrap() {
        Response::Error { error_type, description } => {
            assert_eq!(error_type, ErrorType::AuthError);
            assert_eq!(description, "pam_authenticate: AUTH_ERR");
        }
        other => panic!("unexpected {other:?}"),
    }
    for (ipc, kind) in [
        (greetd_ipc::AuthMessageType::Visible, AuthMessageType::Visible),
        (greetd_ipc::AuthMessageType::Secret, AuthMessageType::Secret),
        (greetd_ipc::AuthMessageType::Info, AuthMessageType::Info),
        (greetd_ipc::AuthMessageType::Error, AuthMessageType::Error),
    ] {
        let msg = greetd_ipc::Response::AuthMessage { auth_message_type: ipc, auth_message: "x".into() };
        match decode_response(&broker_writes(&msg)).unwrap() {
            Response::AuthMessage { auth_message_type, auth_message } => {
                assert_eq!(auth_message_type, kind);
                assert_eq!(auth_message, "x");
            }
            other => panic!("unexpected {other:?}"),
        }
    }
}

#[test]
fn decode_response_from_literal_json() {
    let json = br#"{"type":"auth_message","auth_message_type":"secret","auth_message":"Password:"}"#;
    let frame = encode_frame(json).unwrap();
    match decode_response(&frame).unwrap() {
        Response::AuthMessage { auth_message_type, auth_message } => {
            assert_eq!(auth_message_type, AuthMessageType::Secret);
            assert_eq!(auth_message, "Password:");
        }
        other => panic!("unexpected {other:?}"),
    }
}

#[test]
fn decode_response_errors() {
    assert_eq!(decode_response(&[0, 0]).unwrap_err(), DecodeError::Frame(FrameError::Truncated));
    let frame = encode_frame(b"{\"type\":\"nonsense\"}").unwrap();
    assert_eq!(decode_response(&frame).unwrap_err(), DecodeError::Json);
    let mut long = encode_frame(b"{\"type\":\"success\"}").unwrap();
    long.push(b' ');
    assert_eq!(decode_response(&long).unwrap_err(), DecodeError::Frame(FrameError::TrailingBytes));
}
