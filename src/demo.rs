//! A stand-in for the broker, for running the greeter without one.
//!
//! It follows a fixed script: a one-time password prompt, then a password
//! prompt, then success.

use vstd::prelude::*;
use vstd::string::*;

use crate::protocol::{AuthMessageType, ErrorType, Request, Response};

verus! {

/// The one-time password that the script accepts.
pub const DEMO_OTP: &'static str = "0248";

/// The password that the script accepts.
pub const DEMO_PASSWD: &'static str = "pass";

/// The first prompt of the script.
pub const DEMO_AUTH_MSG_OTP: &'static str = "One-Time Password:";

/// The second prompt of the script.
pub const DEMO_AUTH_MSG_PASSWD: &'static str = "Password:";

/// The error for a wrong answer.
pub const DEMO_AUTH_MSG_ERROR: &'static str = "pam_authenticate: AUTH_ERR";

/// Whether `resp` is a secret prompt that reads `text`.
pub open spec fn is_secret_prompt(resp: Response, text: Seq<char>) -> bool {
    resp matches Response::AuthMessage { auth_message_type: AuthMessageType::Secret, auth_message: m }
        && m@ == text
}

/// Whether `resp` is the script's answer to `req`.
pub open spec fn is_demo_reply(req: Request, resp: Response) -> bool {
    match req {
        Request::CreateSession { .. } => is_secret_prompt(resp, DEMO_AUTH_MSG_OTP@),
        Request::PostAuthMessageResponse { response } => if response is Some && response->0@ == DEMO_OTP@ {
            is_secret_prompt(resp, DEMO_AUTH_MSG_PASSWD@)
        } else if response is Some && response->0@ == DEMO_PASSWD@ {
            resp is Success
        } else {
            resp matches Response::Error { error_type: ErrorType::AuthError, description: d }
                && d@ == DEMO_AUTH_MSG_ERROR@
        },
        Request::StartSession { .. } => resp is Success,
        Request::CancelSession => resp is Success,
    }
}

/// The scripted answer to `request`.
pub fn demo_response(request: &Request) -> (r: Response)
    ensures
        is_demo_reply(*request, r),
{
    match request {
        Request::CreateSession { .. } => Response::AuthMessage {
            auth_message_type: AuthMessageType::Secret,
            auth_message: DEMO_AUTH_MSG_OTP.to_owned(),
        },
        Request::PostAuthMessageResponse { response } => {
            let otp = String::from_str(DEMO_OTP);
            let passwd = String::from_str(DEMO_PASSWD);
            match response {
                Some(input) if *input == otp => Response::AuthMessage {
                    auth_message_type: AuthMessageType::Secret,
                    auth_message: DEMO_AUTH_MSG_PASSWD.to_owned(),
                },
                Some(input) if *input == passwd => Response::Success,
                _ => Response::Error {
                    error_type: ErrorType::AuthError,
                    description: DEMO_AUTH_MSG_ERROR.to_owned(),
                },
            }
        },
        Request::StartSession { .. } => Response::Success,
        Request::CancelSession => Response::Success,
    }
}

} // verus!
