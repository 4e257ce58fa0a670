//! How the greeter reacts to each response of the broker.

use vstd::prelude::*;
use vstd::string::*;

use crate::common::{ascii_upper, capitalize};
use crate::protocol::{AuthMessageType, ErrorType, Response};
use crate::text::{chars_of, is_whitespace, trim_end};

verus! {

/// How input typed by the user is shown.
#[derive(Clone, Copy, Debug, PartialEq, Eq, Structural)]
pub enum InputMode {
    /// The input is hidden, e.g. a password.
    Secret,
    /// The input is shown as it is typed.
    Visible,
}

/// What the greeter does with a response of the broker.
#[derive(Clone, Debug)]
pub enum Reaction {
    /// Authentication is done: start the session.
    StartSession,
    /// Ask the user for input, with `prompt`.
    Prompt { mode: InputMode, prompt: String },
    /// Show `message`, then acknowledge it with an empty response.
    Inform { message: String },
    /// Show the error `message`, then acknowledge it with an empty response.
    ReportAndAcknowledge { message: String },
    /// Show the error `message`; cancel the session first if `cancel`, as an
    /// authentication failure calls for.
    LoginFailed { message: String, cancel: bool },
}

/// `s` with its first character capitalised, where that character is ASCII;
/// otherwise `s` as it is.
pub open spec fn capitalized(s: Seq<char>) -> Seq<char> {
    if s.len() > 0 && (s[0] as u32) < 128 {
        seq![ascii_upper(s[0])] + s.subrange(1, s.len() as int)
    } else {
        s
    }
}

/// The prefix of the message shown when login fails.
pub const LOGIN_FAILED_PREFIX: &'static str = "Login failed: ";

/// Whether `r` is the reaction to `resp`.
pub open spec fn is_reaction(resp: Response, r: Reaction) -> bool {
    match resp {
        Response::Success => r is StartSession,
        Response::AuthMessage { auth_message_type, auth_message } => match auth_message_type {
            AuthMessageType::Secret => r matches Reaction::Prompt { mode: InputMode::Secret, prompt }
                && prompt@ == trim_end(auth_message@),
            AuthMessageType::Visible => r matches Reaction::Prompt {
                mode: InputMode::Visible,
                prompt,
            } && prompt@ == trim_end(auth_message@),
            AuthMessageType::Info => r matches Reaction::Inform { message } && message@
                == auth_message@,
            AuthMessageType::Error => r matches Reaction::ReportAndAcknowledge { message }
                && message@ == capitalized(auth_message@),
        },
        Response::Error { error_type, description } => r matches Reaction::LoginFailed {
            message,
            cancel,
        } && message@ == LOGIN_FAILED_PREFIX@ + capitalized(description@) && cancel == (error_type
            == ErrorType::AuthError),
    }
}

/// `s` with its first character capitalised where that character is ASCII.
fn capitalize_or_keep(s: &str) -> (r: String)
    ensures
        r@ == capitalized(s@),
{
    if s.unicode_len() > 0 && (s.get_char(0) as u32) < 128 {
        capitalize(s)
    } else {
        s.to_owned()
    }
}

/// `s` without its trailing whitespace.
fn trim_end_of(s: &str) -> (r: String)
    ensures
        r@ == trim_end(s@),
{
    let v = chars_of(s);
    let mut b = v.len();
    assert(v@.subrange(0, b as int) =~= s@);
    while b > 0 && is_whitespace(v[b - 1])
        invariant
            b <= v@.len(),
            v@ == s@,
            trim_end(s@) == trim_end(v@.subrange(0, b as int)),
        decreases b,
    {
        assert(v@.subrange(0, b as int).drop_last() =~= v@.subrange(0, b - 1));
        b = b - 1;
    }
    s.substring_char(0, b).to_owned()
}

/// The greeter's reaction to `response`. An info or error message needs no
/// input and is acknowledged with an empty response; an authentication
/// failure also cancels the session so that the user can start again.
pub fn react(response: &Response) -> (r: Reaction)
    ensures
        is_reaction(*response, r),
{
    match response {
        Response::Success => Reaction::StartSession,
        Response::AuthMessage { auth_message_type, auth_message } => match auth_message_type {
            AuthMessageType::Secret => Reaction::Prompt {
                mode: InputMode::Secret,
                prompt: trim_end_of(auth_message.as_str()),
            },
            AuthMessageType::Visible => Reaction::Prompt {
                mode: InputMode::Visible,
                prompt: trim_end_of(auth_message.as_str()),
            },
            AuthMessageType::Info => Reaction::Inform { message: auth_message.clone() },
            AuthMessageType::Error => Reaction::ReportAndAcknowledge {
                message: capitalize_or_keep(auth_message.as_str()),
            },
        },
        Response::Error { error_type, description } => {
            let text = capitalize_or_keep(description.as_str());
            let message = String::from_str(LOGIN_FAILED_PREFIX).concat(text.as_str());
            Reaction::LoginFailed { message, cancel: *error_type == ErrorType::AuthError }
        },
    }
}

} // verus!
