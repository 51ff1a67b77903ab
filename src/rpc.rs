use crate::correlator::PendingTable;
use crate::json::{json_string_of, json_text_of, member, member_of, str_of, string_value, value_text};
use crate::text::{decimal, decimal_text, joined, owned};
use vstd::prelude::*;

verus! {

/// Timeout of an ordinary call, in seconds.
pub const CALL_TIMEOUT_SECS: u64 = 30;

/// Timeout of the initialization handshake, in seconds.
pub const HANDSHAKE_TIMEOUT_SECS: u64 = 120;

/// Why a call produced no result.
pub enum CallError {
    /// No response came within the call's bound.
    Timeout,
    /// The resolution path was torn down before a response came.
    ChannelClosed,
    /// The peer answered with an error object; its message, verbatim.
    Remote(String),
    /// Writing the request to the process failed.
    Write(String),
    /// Every request identifier has been handed out.
    IdentifiersExhausted,
}

/// The text of each call error.
pub open spec fn call_error_text(e: CallError) -> Seq<char> {
    match e {
        CallError::Timeout => "Request timed out"@,
        CallError::ChannelClosed => "Response channel closed"@,
        CallError::Remote(m) => m@,
        CallError::Write(m) => m@,
        CallError::IdentifiersExhausted => "Request identifiers exhausted"@,
    }
}

impl CallError {
    /// The error as text fit for display.
    pub fn message(&self) -> (r: String)
        ensures
            r@ == call_error_text(*self),
    {
        match self {
            CallError::Timeout => owned("Request timed out"),
            CallError::ChannelClosed => owned("Response channel closed"),
            CallError::Remote(m) => m.clone(),
            CallError::Write(m) => m.clone(),
            CallError::IdentifiersExhausted => owned("Request identifiers exhausted"),
        }
    }
}

/// The line that carries a request: protocol tag, method, parameters and
/// identifier as one JSON object, ended by a single newline.
pub open spec fn request_frame(method_json: Seq<char>, params_json: Seq<char>, id: nat) -> Seq<
    char,
> {
    "{\"jsonrpc\":\"2.0\",\"method\":"@ + method_json + ",\"params\":"@ + params_json + ",\"id\":"@
        + decimal(id) + "}\n"@
}

/// Frames a request from the JSON texts of its method and parameters.
pub fn frame_request(method_json: &str, params_json: &str, id: u64) -> (r: String)
    ensures
        r@ == request_frame(method_json@, params_json@, id as nat),
{
    let mut s = joined("{\"jsonrpc\":\"2.0\",\"method\":", method_json);
    s.append(",\"params\":");
    s.append(params_json);
    s.append(",\"id\":");
    let n = decimal_text(id);
    s.append(n.as_str());
    s.append("}\n");
    s
}

/// The line of a request for `method` with `params` under identifier `id`:
/// the method as a JSON string and the parameters as compact JSON.
pub open spec fn request_line(method: Seq<char>, params: serde_json::Value, id: nat) -> Seq<char> {
    request_frame(json_text_of(json_string_of(method)), json_text_of(params), id)
}

/// Frames a request for `method` with `params` under identifier `id`.
pub fn encode_request(method: &str, params: &serde_json::Value, id: u64) -> (r: String)
    ensures
        r@ == request_line(method@, *params, id as nat),
{
    let m = value_text(&string_value(method));
    let p = value_text(params);
    frame_request(m.as_str(), p.as_str(), id)
}

/// Starts a call: files `slot` under a fresh identifier and only then frames
/// the request that carries that identifier, so that no response can arrive
/// before its slot exists.
pub fn begin_call<S>(
    table: &mut PendingTable<S>,
    slot: S,
    method: &str,
    params: &serde_json::Value,
) -> (r: Result<(u64, String), CallError>)
    requires
        old(table)@.wf(),
    ensures
        final(table)@.wf(),
        old(table)@.can_register() ==> {
            &&& r is Ok
            &&& r->Ok_0.0 == old(table)@.next
            &&& final(table)@ == old(table)@.registered(slot)
            &&& r->Ok_0.1@ == request_line(method@, *params, old(table)@.next)
        },
        !old(table)@.can_register() ==> r is Err && r->Err_0 is IdentifiersExhausted
            && final(table)@ == old(table)@,
{
    match table.register(slot) {
        Some(id) => Ok((id, encode_request(method, params, id))),
        None => Err(CallError::IdentifiersExhausted),
    }
}

/// What a response says: an error object, with its message if it is a
/// string, or success, with its result if there is one.
pub enum Reply {
    Failed { message: Option<String> },
    Succeeded { result: Option<serde_json::Value> },
}

/// An optional text as a value.
pub open spec fn opt_text(o: Option<String>) -> Option<Seq<char>> {
    match o {
        Some(s) => Some(s@),
        None => None,
    }
}

/// The `message` of an error object, when it is a string.
pub open spec fn error_message_of(e: serde_json::Value) -> Option<Seq<char>> {
    match member_of(e, "message"@) {
        Some(m) => str_of(m),
        None => None,
    }
}

/// Reads a response message: an `error` member makes it a failure.
pub fn read_reply(message: &serde_json::Value) -> (r: Reply)
    ensures
        match member_of(*message, "error"@) {
            Some(e) => r is Failed && opt_text(r->Failed_message) == error_message_of(e),
            None => r is Succeeded && r->Succeeded_result == member_of(*message, "result"@),
        },
{
    match member(message, "error") {
        Some(error) => {
            let text = match member(error, "message") {
                Some(m) => match m.as_str() {
                    Some(s) => Some(owned(s)),
                    None => None,
                },
                None => None,
            };
            Reply::Failed { message: text }
        },
        None => {
            let result = match member(message, "result") {
                Some(v) => Some(v.clone()),
                None => None,
            };
            Reply::Succeeded { result }
        },
    }
}

/// The outcome of a call for each reply: the peer's message, or a generic
/// one when it gave none; or the result, absent when the peer sent none.
pub open spec fn reply_outcome_ok(reply: Reply, r: Result<Option<serde_json::Value>, CallError>) -> bool {
    match reply {
        Reply::Failed { message } => match r {
            Err(CallError::Remote(m)) => match message {
                Some(t) => m@ == t@,
                None => m@ == "Unknown error"@,
            },
            _ => false,
        },
        Reply::Succeeded { result } => r == Ok::<Option<serde_json::Value>, CallError>(result),
    }
}

/// Turns a reply into the call's outcome.
pub fn reply_outcome(reply: Reply) -> (r: Result<Option<serde_json::Value>, CallError>)
    ensures
        reply_outcome_ok(reply, r),
{
    match reply {
        Reply::Failed { message } => match message {
            Some(t) => Err(CallError::Remote(t)),
            None => Err(CallError::Remote(owned("Unknown error"))),
        },
        Reply::Succeeded { result } => Ok(result),
    }
}

/// The outcome of a call answered by `m`: the peer's error message, or a
/// generic one when its error carries none; else the result, if any.
pub open spec fn answer_outcome(m: serde_json::Value, r: Result<Option<serde_json::Value>, CallError>) -> bool {
    match member_of(m, "error"@) {
        Some(e) => match r {
            Err(CallError::Remote(t)) => t@ == match error_message_of(e) {
                Some(x) => x,
                None => "Unknown error"@,
            },
            _ => false,
        },
        None => r == Ok::<Option<serde_json::Value>, CallError>(member_of(m, "result"@)),
    }
}

/// How a call ended before its outcome is known.
pub enum WaitOutcome {
    /// The response arrived.
    Answered(serde_json::Value),
    /// The resolution path was torn down.
    ChannelClosed,
    /// The bound elapsed first.
    TimedOut,
    /// The request could not be written; the system's message.
    WriteFailed(String),
}

/// Ends the call under identifier `id`, whatever happened: the identifier
/// is settled (a no-op when the reader already took its slot), so that it
/// never stays registered and a late response finds no slot.
pub fn finish_call<S>(table: &mut PendingTable<S>, id: u64, outcome: WaitOutcome) -> (r: Result<
    Option<serde_json::Value>,
    CallError,
>)
    requires
        old(table)@.wf(),
    ensures
        final(table)@.wf(),
        final(table)@ == old(table)@.settled(id),
        match outcome {
            WaitOutcome::TimedOut => r is Err && r->Err_0 is Timeout,
            WaitOutcome::ChannelClosed => r is Err && r->Err_0 is ChannelClosed,
            WaitOutcome::WriteFailed(m) => r is Err && r->Err_0 == CallError::Write(m),
            WaitOutcome::Answered(m) => answer_outcome(m, r),
        },
{
    table.evict(id);
    match outcome {
        WaitOutcome::TimedOut => Err(CallError::Timeout),
        WaitOutcome::ChannelClosed => Err(CallError::ChannelClosed),
        WaitOutcome::WriteFailed(m) => Err(CallError::Write(m)),
        WaitOutcome::Answered(message) => reply_outcome(read_reply(&message)),
    }
}

} // verus!
