//! The session state machine that drives one authentication conversation
//! with the login broker.
//!
//! Each operation builds the request to send and records that a response is
//! awaited; the caller performs the round trip and hands the broker's response
//! back through [`GreetdClient::receive`], which applies the transition.

use vstd::prelude::*;

use crate::protocol::{Request, Response};

verus! {

/// The authentication status of the current broker session.
#[derive(Clone, Copy, Debug, PartialEq, Eq, Structural)]
pub enum AuthStatus {
    NotStarted,
    InProgress,
    Done,
}

/// One of the four operations of the protocol.
#[derive(Clone, Copy, Debug, PartialEq, Eq, Structural)]
pub enum Operation {
    CreateSession,
    SendAuthResponse,
    StartSession,
    CancelSession,
}

/// Why an operation or a response was not accepted.
#[derive(Clone, Copy, Debug, PartialEq, Eq, Structural)]
pub enum ClientError {
    /// An operation was issued while another one still awaits its response.
    Busy,
    /// `start_session` was issued before authentication finished.
    NotAuthenticated,
    /// A response arrived while no request was awaiting one.
    NoPendingRequest,
    /// The broker asked for authentication in answer to a session start or a
    /// cancellation, which the protocol does not allow.
    UnexpectedAuthMessage,
}

/// The status after the broker answered `op` with `resp` from `status`.
pub open spec fn next_status(status: AuthStatus, op: Operation, resp: Response) -> AuthStatus {
    match op {
        Operation::CreateSession => match resp {
            Response::Success => AuthStatus::Done,
            Response::AuthMessage { .. } => AuthStatus::InProgress,
            Response::Error { .. } => AuthStatus::NotStarted,
        },
        Operation::SendAuthResponse => match resp {
            Response::Success => AuthStatus::Done,
            Response::AuthMessage { .. } => AuthStatus::InProgress,
            Response::Error { .. } => AuthStatus::InProgress,
        },
        Operation::StartSession => status,
        Operation::CancelSession => AuthStatus::NotStarted,
    }
}

/// Whether `resp` is a protocol violation as the answer to `op`.
pub open spec fn violates_protocol(op: Operation, resp: Response) -> bool {
    (op == Operation::StartSession || op == Operation::CancelSession) && resp is AuthMessage
}

/// The status reached from `status` by the answered operations `steps`, in order.
pub open spec fn fold_status(status: AuthStatus, steps: Seq<(Operation, Response)>) -> AuthStatus
    decreases steps.len(),
{
    if steps.len() == 0 {
        status
    } else {
        next_status(
            fold_status(status, steps.drop_last()),
            steps.last().0,
            steps.last().1,
        )
    }
}

/// The status that a client reaches from its start through the finished
/// round trips `steps`, in order: each operation with the broker's response,
/// or with `None` where the round trip failed. A failed round trip changes
/// nothing, but for a cancellation, which resets the status whatever happens.
pub open spec fn run_status(steps: Seq<(Operation, Option<Response>)>) -> AuthStatus
    decreases steps.len(),
{
    if steps.len() == 0 {
        AuthStatus::NotStarted
    } else {
        let prev = run_status(steps.drop_last());
        let (op, resp) = steps.last();
        match resp {
            Some(r) => next_status(prev, op, r),
            None => if op == Operation::CancelSession {
                AuthStatus::NotStarted
            } else {
                prev
            },
        }
    }
}

/// The answered steps of `steps`, where every round trip got a response.
pub open spec fn answered(steps: Seq<(Operation, Option<Response>)>) -> Seq<(Operation, Response)> {
    steps.map_values(|s: (Operation, Option<Response>)| (s.0, s.1->0))
}

/// Client state of one conversation with the broker.
pub struct GreetdClient {
    /// Current authentication status.
    auth_status: AuthStatus,
    /// The operation whose request awaits its response, if any.
    pending: Option<Operation>,
    /// The finished round trips, in order.
    history: Ghost<Seq<(Operation, Option<Response>)>>,
}

impl GreetdClient {
    /// Where the authentication conversation stands.
    pub closed spec fn status(&self) -> AuthStatus {
        self.auth_status
    }

    /// The operation whose request awaits its response, if any.
    pub closed spec fn awaiting(&self) -> Option<Operation> {
        self.pending
    }

    /// The finished round trips since the client was made, in order.
    pub closed spec fn history(&self) -> Seq<(Operation, Option<Response>)> {
        self.history@
    }

    /// The status is the one that the finished round trips lead to.
    pub open spec fn wf(&self) -> bool {
        self.status() == run_status(self.history())
    }

    /// A client with no session and no request in flight.
    pub fn new() -> (c: GreetdClient)
        ensures
            c.wf(),
            c.status() == AuthStatus::NotStarted,
            c.awaiting() is None,
            c.history() == Seq::<(Operation, Option<Response>)>::empty(),
    {
        GreetdClient { auth_status: AuthStatus::NotStarted, pending: None, history: Ghost(Seq::empty()) }
    }

    /// The current authentication status.
    pub fn get_auth_status(&self) -> (s: &AuthStatus)
        ensures
            *s == self.status(),
    {
        &self.auth_status
    }

    /// The operation whose response is awaited, if any.
    pub fn pending_operation(&self) -> (p: Option<Operation>)
        ensures
            p == self.awaiting(),
    {
        self.pending
    }

    /// Begin creating a session for `username`: returns the request to send.
    pub fn create_session(&mut self, username: &str) -> (r: Result<Request, ClientError>)
        requires
            old(self).wf(),
        ensures
            final(self).wf(),
            final(self).history() == old(self).history(),
            old(self).awaiting() is Some ==> r == Err::<Request, ClientError>(ClientError::Busy)
                && *final(self) == *old(self),
            old(self).awaiting() is None ==> (r matches Ok(Request::CreateSession { username: u })
                && u@ == username@) && final(self).status() == old(self).status()
                && final(self).awaiting() == Some(Operation::CreateSession),
    {
        if self.pending.is_some() {
            return Err(ClientError::Busy);
        }
        self.pending = Some(Operation::CreateSession);
        Ok(Request::CreateSession { username: username.to_owned() })
    }

    /// Answer the broker's last authentication message with `input`, or with
    /// nothing when the message needs no input: returns the request to send.
    pub fn send_auth_response(&mut self, input: Option<String>) -> (r: Result<Request, ClientError>)
        requires
            old(self).wf(),
        ensures
            final(self).wf(),
            final(self).history() == old(self).history(),
            old(self).awaiting() is Some ==> r == Err::<Request, ClientError>(ClientError::Busy)
                && *final(self) == *old(self),
            old(self).awaiting() is None ==> r == Ok::<Request, ClientError>(
                Request::PostAuthMessageResponse { response: input },
            ) && final(self).status() == old(self).status()
                && final(self).awaiting() == Some(Operation::SendAuthResponse),
    {
        if self.pending.is_some() {
            return Err(ClientError::Busy);
        }
        self.pending = Some(Operation::SendAuthResponse);
        Ok(Request::PostAuthMessageResponse { response: input })
    }

    /// Ask the broker to start `command` with `environment` once the greeter
    /// exits: returns the request to send. Only an authenticated session can
    /// be started; any other status is refused.
    pub fn start_session(&mut self, command: Vec<String>, environment: Vec<String>) -> (r: Result<
        Request,
        ClientError,
    >)
        requires
            old(self).wf(),
        ensures
            final(self).wf(),
            final(self).history() == old(self).history(),
            old(self).awaiting() is Some ==> r == Err::<Request, ClientError>(ClientError::Busy)
                && *final(self) == *old(self),
            old(self).awaiting() is None && old(self).status() != AuthStatus::Done ==> r == Err::<
                Request,
                ClientError,
            >(ClientError::NotAuthenticated) && *final(self) == *old(self),
            old(self).awaiting() is None && old(self).status() == AuthStatus::Done ==> r == Ok::<
                Request,
                ClientError,
            >(Request::StartSession { cmd: command, env: environment })
                && final(self).status() == AuthStatus::Done
                && final(self).awaiting() == Some(Operation::StartSession),
    {
        if self.pending.is_some() {
            return Err(ClientError::Busy);
        }
        if self.auth_status != AuthStatus::Done {
            return Err(ClientError::NotAuthenticated);
        }
        self.pending = Some(Operation::StartSession);
        Ok(Request::StartSession { cmd: command, env: environment })
    }

    /// Cancel the session: returns the request to send, or `Busy` while
    /// another request still awaits its response. Once the round trip ends,
    /// answered or failed, the status is `NotStarted`.
    pub fn cancel_session(&mut self) -> (r: Result<Request, ClientError>)
        requires
            old(self).wf(),
        ensures
            final(self).wf(),
            final(self).history() == old(self).history(),
            old(self).awaiting() is Some ==> r == Err::<Request, ClientError>(ClientError::Busy)
                && *final(self) == *old(self),
            old(self).awaiting() is None ==> r == Ok::<Request, ClientError>(Request::CancelSession)
                && final(self).status() == old(self).status()
                && final(self).awaiting() == Some(Operation::CancelSession),
    {
        if self.pending.is_some() {
            return Err(ClientError::Busy);
        }
        self.pending = Some(Operation::CancelSession);
        Ok(Request::CancelSession)
    }

    /// Take the broker's response to the request in flight and apply the
    /// transition. The response is handed back for the caller to act on; an
    /// authentication message in answer to a start or a cancellation is
    /// refused as a protocol violation.
    pub fn receive(&mut self, response: Response) -> (r: Result<Response, ClientError>)
        requires
            old(self).wf(),
        ensures
            final(self).wf(),
            old(self).awaiting() is Some ==> final(self).history() == old(self).history().push(
                (old(self).awaiting()->0, Some(response)),
            ),
            old(self).awaiting() is None ==> r == Err::<Response, ClientError>(
                ClientError::NoPendingRequest,
            ) && *final(self) == *old(self),
            old(self).awaiting() is Some ==> final(self).awaiting() is None
                && final(self).status() == next_status(
                old(self).status(),
                old(self).awaiting()->0,
                response,
            ) && (if violates_protocol(old(self).awaiting()->0, response) {
                r == Err::<Response, ClientError>(ClientError::UnexpectedAuthMessage)
            } else {
                r == Ok::<Response, ClientError>(response)
            }),
    {
        let op = match self.pending {
            None => return Err(ClientError::NoPendingRequest),
            Some(op) => op,
        };
        self.pending = None;
        proof {
            let old_history = self.history@;
            self.history = Ghost(old_history.push((op, Some(response))));
            assert(self.history@.drop_last() =~= old_history);
        }
        match op {
            Operation::CreateSession => {
                self.auth_status = match &response {
                    Response::Success => AuthStatus::Done,
                    Response::AuthMessage { .. } => AuthStatus::InProgress,
                    Response::Error { .. } => AuthStatus::NotStarted,
                };
            },
            Operation::SendAuthResponse => {
                self.auth_status = match &response {
                    Response::Success => AuthStatus::Done,
                    _ => AuthStatus::InProgress,
                };
            },
            Operation::StartSession | Operation::CancelSession => {
                if op == Operation::CancelSession {
                    self.auth_status = AuthStatus::NotStarted;
                }
                if let Response::AuthMessage { .. } = &response {
                    return Err(ClientError::UnexpectedAuthMessage);
                }
            },
        }
        Ok(response)
    }

    /// The operation that the user's next action calls for: a new session
    /// when none is started, an answer while authentication goes on, and the
    /// session start once it is done.
    pub fn next_operation(&self) -> (op: Operation)
        ensures
            op == (match self.status() {
                AuthStatus::NotStarted => Operation::CreateSession,
                AuthStatus::InProgress => Operation::SendAuthResponse,
                AuthStatus::Done => Operation::StartSession,
            }),
    {
        match self.auth_status {
            AuthStatus::NotStarted => Operation::CreateSession,
            AuthStatus::InProgress => Operation::SendAuthResponse,
            AuthStatus::Done => Operation::StartSession,
        }
    }

    /// Whether a session was created and not finished, so that the broker must
    /// be told to cancel it before the greeter exits.
    pub fn needs_cancel(&self) -> (b: bool)
        ensures
            b == (self.status() != AuthStatus::NotStarted),
    {
        self.auth_status != AuthStatus::NotStarted
    }

    /// The round trip of the request in flight failed: no response will come.
    /// The status stays as it was, but for a cancellation, which resets it.
    pub fn transport_failed(&mut self)
        requires
            old(self).wf(),
        ensures
            final(self).wf(),
            final(self).awaiting() is None,
            old(self).awaiting() is Some ==> final(self).history() == old(self).history().push(
                (old(self).awaiting()->0, None),
            ),
            old(self).awaiting() is None ==> final(self).history() == old(self).history(),
            final(self).status() == (if old(self).awaiting() == Some(Operation::CancelSession) {
                AuthStatus::NotStarted
            } else {
                old(self).status()
            }),
    {
        if let Some(op) = self.pending {
            proof {
                let old_history = self.history@;
                self.history = Ghost(old_history.push((op, None)));
                assert(self.history@.drop_last() =~= old_history);
            }
            if op == Operation::CancelSession {
                self.auth_status = AuthStatus::NotStarted;
            }
        }
        self.pending = None;
    }
}

/// Cancelling resets the conversation: whatever the status before and
/// whatever the broker answers, the status afterwards is `NotStarted`.
pub proof fn lemma_cancel_resets(status: AuthStatus, resp: Response)
    ensures
        next_status(status, Operation::CancelSession, resp) == AuthStatus::NotStarted,
{
}

/// A run whose round trips were all answered ends in the status that folding
/// the transition table over its operations and responses gives, from
/// `NotStarted`: the status depends on nothing else.
pub proof fn lemma_run_is_fold(steps: Seq<(Operation, Option<Response>)>)
    requires
        forall|i: int| 0 <= i < steps.len() ==> (#[trigger] steps[i]).1 is Some,
    ensures
        run_status(steps) == fold_status(AuthStatus::NotStarted, answered(steps)),
    decreases steps.len(),
{
    if steps.len() > 0 {
        let prev = steps.drop_last();
        assert forall|i: int| 0 <= i < prev.len() implies (#[trigger] prev[i]).1 is Some by {
            assert(prev[i] == steps[i]);
        }
        lemma_run_is_fold(prev);
        assert(answered(steps).drop_last() =~= answered(prev));
        assert(steps[steps.len() - 1].1 is Some);
    }
}

/// A cancellation that failed on the way still resets the status.
pub proof fn lemma_failed_cancel_resets(steps: Seq<(Operation, Option<Response>)>)
    ensures
        run_status(steps.push((Operation::CancelSession, None))) == AuthStatus::NotStarted,
{
    assert(steps.push((Operation::CancelSession, None)).drop_last() =~= steps);
}

/// The status is a function of the initial status and of the answered
/// operations alone: a run whose every step follows the transition table ends
/// in the status that folding the table over its steps gives.
pub proof fn lemma_status_is_fold(trace: Seq<AuthStatus>, steps: Seq<(Operation, Response)>)
    requires
        trace.len() == steps.len() + 1,
        forall|i: int|
            0 <= i < steps.len() ==> #[trigger] trace[i + 1] == next_status(
                trace[i],
                steps[i].0,
                steps[i].1,
            ),
    ensures
        trace.last() == fold_status(trace[0], steps),
    decreases steps.len(),
{
    if steps.len() > 0 {
        let n = steps.len() - 1;
        lemma_status_is_fold(trace.drop_last(), steps.drop_last());
        assert(trace[n + 1] == next_status(trace[n], steps[n].0, steps[n].1));
    }
}

} // verus!