//! The bytes of the messages exchanged with the broker: a JSON document in the
//! broker's schema, carried in a length-prefixed frame.

use vstd::prelude::*;

use crate::protocol::{AuthMessageType, ErrorType, Request, RequestModel, Response, ResponseModel};
use crate::wire::{be_value, decode_frame, encode_frame, frame_of, FrameError};

use greetd_ipc::AuthMessageType as IpcKind;
use greetd_ipc::ErrorType as IpcError;
use greetd_ipc::Request as IpcRequest;
use greetd_ipc::Response as IpcResponse;

verus! {

/// The JSON document that the broker's schema gives for `r`.
pub uninterp spec fn request_json(r: RequestModel) -> Seq<u8>;

/// The response that the JSON document `b` holds in the broker's schema, if
/// it holds one.
pub uninterp spec fn response_from_json(b: Seq<u8>) -> Option<ResponseModel>;

/// Relies on `serde_json::to_vec` over `greetd_ipc::Request`, the broker's
/// schema, which cannot fail: the type holds no map and its derived
/// serialisation never errs.
#[verifier::external_body]
fn request_to_json(r: &Request) -> (b: Vec<u8>)
    ensures
        b@ == request_json(r@),
{
    let ipc = match r.clone() {
        Request::CreateSession { username } => IpcRequest::CreateSession { username },
        Request::PostAuthMessageResponse { response } => IpcRequest::PostAuthMessageResponse { response },
        Request::StartSession { cmd, env } => IpcRequest::StartSession { cmd, env },
        Request::CancelSession => IpcRequest::CancelSession,
    };
    serde_json::to_vec(&ipc).expect("a request always serialises")
}

/// Relies on `serde_json::from_slice` into `greetd_ipc::Response`, the
/// broker's schema: the response that the document holds, if any.
#[verifier::external_body]
fn response_from_json_bytes(b: &[u8]) -> (r: Option<Response>)
    ensures
        match r {
            Some(x) => response_from_json(b@) == Some(x@),
            None => response_from_json(b@) is None,
        },
{
    Some(match serde_json::from_slice(b).ok()? {
        IpcResponse::Success => Response::Success,
        IpcResponse::Error { error_type: e, description } => Response::Error {
            error_type: match e { IpcError::Error => ErrorType::Error, IpcError::AuthError => ErrorType::AuthError },
            description,
        },
        IpcResponse::AuthMessage { auth_message_type: k, auth_message } => Response::AuthMessage {
            auth_message_type: match k { IpcKind::Visible => AuthMessageType::Visible, IpcKind::Secret => AuthMessageType::Secret, IpcKind::Info => AuthMessageType::Info, IpcKind::Error => AuthMessageType::Error },
            auth_message,
        },
    })
}

/// Why the bytes of a response could not be read.
#[derive(Clone, Copy, Debug, PartialEq, Eq, Structural)]
pub enum DecodeError {
    /// The bytes are not exactly one frame.
    Frame(FrameError),
    /// The frame's body is no response of the broker's schema.
    Json,
}

/// The frame that carries `request` to the broker.
pub fn encode_request(request: &Request) -> (r: Result<Vec<u8>, FrameError>)
    ensures
        request_json(request@).len() <= u32::MAX ==> (r matches Ok(f) && f@ == frame_of(
            request_json(request@),
        )),
        request_json(request@).len() > u32::MAX ==> r == Err::<Vec<u8>, FrameError>(
            FrameError::TooLong,
        ),
{
    let body = request_to_json(request);
    encode_frame(body.as_slice())
}

/// The response that the frame `bytes` carries.
pub fn decode_response(bytes: &[u8]) -> (r: Result<Response, DecodeError>)
    ensures
        bytes@.len() < 4 || bytes@.len() < 4 + be_value(bytes@.subrange(0, 4)) ==> r == Err::<
            Response,
            DecodeError,
        >(DecodeError::Frame(FrameError::Truncated)),
        bytes@.len() >= 4 && bytes@.len() > 4 + be_value(bytes@.subrange(0, 4)) ==> r == Err::<
            Response,
            DecodeError,
        >(DecodeError::Frame(FrameError::TrailingBytes)),
        bytes@.len() >= 4 && bytes@.len() == 4 + be_value(bytes@.subrange(0, 4)) ==> match r {
            Ok(x) => response_from_json(bytes@.subrange(4, bytes@.len() as int)) == Some(x@),
            Err(e) => e == DecodeError::Json && response_from_json(
                bytes@.subrange(4, bytes@.len() as int),
            ) is None,
        },
{
    match decode_frame(bytes) {
        Err(e) => Err(DecodeError::Frame(e)),
        Ok(body) => match response_from_json_bytes(body.as_slice()) {
            Some(x) => Ok(x),
            None => Err(DecodeError::Json),
        },
    }
}

} // verus!
