//! The line-oriented request/response protocol of the out-of-process
//! backend: framing, and checking a response envelope.

use vstd::prelude::*;
use vstd::string::StringExecFns;

use crate::text::push_char;
use crate::types::{HandlerResult, IpcResponse};

verus! {

/// What can go wrong in one request/response round trip.
#[derive(Debug, Clone)]
pub enum SidecarError {
    /// The backend reported an error with this message.
    Remote(String),
    /// The backend reported an error without a message.
    NoMessage,
    /// A successful response carried no payload.
    NoData,
    /// The backend closed its output before answering.
    Closed,
    /// A single-file handler or resolver answered `false`, which is not a
    /// valid result.
    ReturnedFalse,
}

/// One message on the wire: the JSON text followed by a newline.
pub fn frame_message(json: &str) -> (r: String)
    ensures
        r@ == json@.push('\n'),
{
    let mut out = String::from_str(json);
    push_char(&mut out, '\n');
    out
}

/// Checks the line read as a response: an empty read means the backend
/// closed its output.
pub fn check_response_line(line: &str) -> (r: Result<(), SidecarError>)
    ensures
        r is Err <==> line@.len() == 0,
        r is Err ==> r->Err_0 is Closed,
{
    if line.is_empty() {
        Err(SidecarError::Closed)
    } else {
        Ok(())
    }
}

/// The result of a single-file call whose payload is a boolean: `true` is a
/// pass, `false` is rejected rather than taken as a policy failure.
pub fn boolean_result(value: bool) -> (r: Result<HandlerResult, SidecarError>)
    ensures
        value ==> r matches Ok(HandlerResult::Pass(true)),
        !value ==> r matches Err(SidecarError::ReturnedFalse),
{
    if value {
        Ok(HandlerResult::Pass(true))
    } else {
        Err(SidecarError::ReturnedFalse)
    }
}

impl IpcResponse {
    /// The payload of a response: a failed response becomes its error
    /// (with its message if it has one), a successful one without payload
    /// is an error too.
    pub fn into_data(self) -> (r: Result<serde_json::Value, SidecarError>)
        ensures
            !self.ok && self.error is Some ==> (r matches Err(SidecarError::Remote(m)) && m@
                == self.error->0@),
            !self.ok && self.error is None ==> (r matches Err(SidecarError::NoMessage)),
            self.ok && self.data is None ==> (r matches Err(SidecarError::NoData)),
            self.ok && self.data is Some ==> r == Ok::<serde_json::Value, SidecarError>(
                self.data->0,
            ),
    {
        if !self.ok {
            return match self.error {
                Some(m) => Err(SidecarError::Remote(m)),
                None => Err(SidecarError::NoMessage),
            };
        }
        match self.data {
            Some(d) => Ok(d),
            None => Err(SidecarError::NoData),
        }
    }
}

} // verus!
