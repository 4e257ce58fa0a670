//! Messages exchanged with the login broker.

use vstd::prelude::*;
use vstd::string::*;

verus! {

/// The kind of text that the broker sends with an authentication turn.
#[derive(Clone, Copy, Debug, PartialEq, Eq, Structural)]
pub enum AuthMessageType {
    /// Input that may be shown while it is typed.
    Visible,
    /// Input that must be hidden while it is typed.
    Secret,
    /// Information for the user; no input is needed.
    Info,
    /// An error for the user; no input is needed.
    Error,
}

/// The kind of error that the broker reports.
#[derive(Clone, Copy, Debug, PartialEq, Eq, Structural)]
pub enum ErrorType {
    /// Any error other than an authentication failure.
    Error,
    /// Authentication failed, e.g. wrong credentials.
    AuthError,
}

/// A request to the broker. Exactly one is in flight at a time.
#[derive(Clone, Debug)]
pub enum Request {
    CreateSession { username: String },
    PostAuthMessageResponse { response: Option<String> },
    StartSession { cmd: Vec<String>, env: Vec<String> },
    CancelSession,
}

/// The broker's answer to one request.
#[derive(Clone, Debug)]
pub enum Response {
    Success,
    Error { error_type: ErrorType, description: String },
    AuthMessage { auth_message_type: AuthMessageType, auth_message: String },
}

/// A request as plain values.
pub enum RequestModel {
    CreateSession { username: Seq<char> },
    PostAuthMessageResponse { response: Option<Seq<char>> },
    StartSession { cmd: Seq<Seq<char>>, env: Seq<Seq<char>> },
    CancelSession,
}

impl View for Request {
    type V = RequestModel;

    open spec fn view(&self) -> RequestModel {
        match self {
            Request::CreateSession { username } => RequestModel::CreateSession {
                username: username@,
            },
            Request::PostAuthMessageResponse { response } => RequestModel::PostAuthMessageResponse {
                response: match response {
                    Some(r) => Some(r@),
                    None => None,
                },
            },
            Request::StartSession { cmd, env } => RequestModel::StartSession {
                cmd: cmd.deep_view(),
                env: env.deep_view(),
            },
            Request::CancelSession => RequestModel::CancelSession,
        }
    }
}

/// A response as plain values.
pub enum ResponseModel {
    Success,
    Error { error_type: ErrorType, description: Seq<char> },
    AuthMessage { auth_message_type: AuthMessageType, auth_message: Seq<char> },
}

impl View for Response {
    type V = ResponseModel;

    open spec fn view(&self) -> ResponseModel {
        match self {
            Response::Success => ResponseModel::Success,
            Response::Error { error_type, description } => ResponseModel::Error {
                error_type: *error_type,
                description: description@,
            },
            Response::AuthMessage { auth_message_type, auth_message } => ResponseModel::AuthMessage {
                auth_message_type: *auth_message_type,
                auth_message: auth_message@,
            },
        }
    }
}

} // verus!
