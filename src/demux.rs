use crate::correlator::PendingTable;
use crate::correlator::PendingModel;
use crate::json::{json_accepts, member, member_of, parse_value, parsed_of, str_of, u64_of};
use crate::text::{owned, trim, trim_end, trim_end_of, trim_of};
use vstd::prelude::*;

verus! {

/// Where a parsed message goes: a numeric identifier makes it a response;
/// otherwise a method name makes it a notification; otherwise nowhere.
pub enum Route {
    Response(u64),
    Notification(String),
    Nowhere,
}

/// Routes a message by its identifier and method name.
pub fn route(id: Option<u64>, method: Option<String>) -> (r: Route)
    ensures
        match id {
            Some(k) => r == Route::Response(k),
            None => match method {
                Some(m) => r == Route::Notification(m),
                None => r is Nowhere,
            },
        },
{
    match id {
        Some(k) => Route::Response(k),
        None => match method {
            Some(m) => Route::Notification(m),
            None => Route::Nowhere,
        },
    }
}

/// One line read from the process's output, classified.
pub enum Inbound {
    /// Empty or whitespace only.
    Blank,
    /// Not JSON.
    Malformed,
    /// A response: its identifier and the whole message.
    Response { id: u64, message: serde_json::Value },
    /// A notification: its method and parameters.
    Notification { method: String, params: Option<serde_json::Value> },
    /// JSON with neither a numeric identifier nor a method name.
    Unrouted,
}

/// The numeric identifier of a message, if it has one.
pub open spec fn id_of(v: serde_json::Value) -> Option<u64> {
    match member_of(v, "id"@) {
        Some(x) => u64_of(x),
        None => None,
    }
}

/// The method name of a message, if it has one that is a string.
pub open spec fn method_of(v: serde_json::Value) -> Option<Seq<char>> {
    match member_of(v, "method"@) {
        Some(x) => str_of(x),
        None => None,
    }
}

/// How a parsed message `v` is classified: a response when it has a numeric
/// identifier, else a notification when it has a method name, else neither.
pub open spec fn classified_as(v: serde_json::Value, r: Inbound) -> bool {
    match id_of(v) {
        Some(k) => r == Inbound::Response { id: k, message: v },
        None => match method_of(v) {
            Some(m) => r is Notification && r->Notification_method@ == m && r->Notification_params
                == member_of(v, "params"@),
            None => r is Unrouted,
        },
    }
}

/// Classifies one line of output.
pub fn classify_line(line: &str) -> (r: Inbound)
    ensures
        r is Blank <==> trim_of(line@).len() == 0,
        r is Malformed <==> trim_of(line@).len() != 0 && !json_accepts(trim_of(line@)),
        trim_of(line@).len() != 0 && json_accepts(trim_of(line@)) ==> classified_as(
            parsed_of(trim_of(line@)),
            r,
        ),
{
    let t = trim(line);
    if t.unicode_len() == 0 {
        return Inbound::Blank;
    }
    let message = match parse_value(t) {
        Ok(v) => v,
        Err(_) => return Inbound::Malformed,
    };
    let id = match member(&message, "id") {
        Some(v) => v.as_u64(),
        None => None,
    };
    let method = match member(&message, "method") {
        Some(v) => match v.as_str() {
            Some(s) => Some(owned(s)),
            None => None,
        },
        None => None,
    };
    match route(id, method) {
        Route::Response(k) => Inbound::Response { id: k, message },
        Route::Notification(m) => {
            let params = match member(&message, "params") {
                Some(p) => Some(p.clone()),
                None => None,
            };
            Inbound::Notification { method: m, params }
        },
        Route::Nowhere => Inbound::Unrouted,
    }
}

/// What the reader does with one classified line.
pub enum Delivery<S> {
    /// Hand the message to the slot that waited for it.
    Deliver { slot: S, message: serde_json::Value },
    /// A response that nobody waits for any more: dropped.
    Discard,
    /// Publish a notification to the event sink.
    Notify { method: String, params: Option<serde_json::Value> },
    /// Nothing to do.
    Skip,
}

/// Dispatches one classified line: a response takes its slot out of the
/// table; every other line leaves the table as it is.
pub fn dispatch<S>(table: &mut PendingTable<S>, inbound: Inbound) -> (r: Delivery<S>)
    requires
        old(table)@.wf(),
    ensures
        final(table)@.wf(),
        match inbound {
            Inbound::Response { id, message } => {
                &&& final(table)@ == old(table)@.settled(id)
                &&& match old(table)@.slot_of(id) {
                    Some(s) => r == Delivery::Deliver { slot: s, message },
                    None => r is Discard,
                }
            },
            Inbound::Notification { method, params } => {
                &&& final(table)@ == old(table)@
                &&& r == Delivery::<S>::Notify { method, params }
            },
            _ => final(table)@ == old(table)@ && r is Skip,
        },
{
    match inbound {
        Inbound::Response { id, message } => match table.take(id) {
            Some(slot) => Delivery::Deliver { slot, message },
            None => Delivery::Discard,
        },
        Inbound::Notification { method, params } => Delivery::Notify { method, params },
        _ => Delivery::Skip,
    }
}

/// What reading the output stream produced.
pub enum ReadEvent {
    Line(String),
    Closed,
    Failed(String),
}

/// The reader's next move.
pub enum ReaderStep<S> {
    /// Act on the line, then read the next one.
    Continue(Delivery<S>),
    /// The stream ended: announce the disconnection with this message and stop.
    Stop { message: String },
}

/// What one line does to the table and what the reader does with it: a
/// blank or malformed line, or one with neither identifier nor method, does
/// nothing; a response settles its identifier and goes to the slot that
/// waited under it, if any; a notification is published.
pub open spec fn line_effect<S>(
    before: PendingModel<S>,
    after: PendingModel<S>,
    line: Seq<char>,
    d: Delivery<S>,
) -> bool {
    let t = trim_of(line);
    if t.len() == 0 || !json_accepts(t) {
        after == before && d is Skip
    } else {
        let v = parsed_of(t);
        match id_of(v) {
            Some(k) => {
                &&& after == before.settled(k)
                &&& match before.slot_of(k) {
                    Some(s) => d == Delivery::Deliver { slot: s, message: v },
                    None => d is Discard,
                }
            },
            None => {
                &&& after == before
                &&& match method_of(v) {
                    Some(m) => d is Notify && d->Notify_method@ == m && d->Notify_params == member_of(
                        v,
                        "params"@,
                    ),
                    None => d is Skip,
                }
            },
        }
    }
}

/// The reader loop's decision for one event: every line, well formed or
/// not, keeps the loop reading; only the end of the stream stops it.
pub fn reader_step<S>(table: &mut PendingTable<S>, event: ReadEvent) -> (r: ReaderStep<S>)
    requires
        old(table)@.wf(),
    ensures
        final(table)@.wf(),
        event is Line <==> r is Continue,
        match event {
            ReadEvent::Line(l) => line_effect(old(table)@, final(table)@, l@, r->Continue_0),
            _ => final(table)@ == old(table)@ && r->message@ == "OpenCode process ended"@,
        },
{
    match event {
        ReadEvent::Line(line) => ReaderStep::Continue(dispatch(table, classify_line(line.as_str()))),
        _ => ReaderStep::Stop { message: owned("OpenCode process ended") },
    }
}

/// The diagnostic event for one line of the error stream: the line without
/// its line ending and trailing white space (leading indentation is kept),
/// or nothing when that leaves it empty.
pub fn diagnostic_line(line: &str) -> (r: Option<String>)
    ensures
        trim_end_of(line@).len() == 0 ==> r is None,
        trim_end_of(line@).len() != 0 ==> r is Some && r->0@ == trim_end_of(line@),
{
    let t = trim_end(line);
    if t.unicode_len() == 0 {
        None
    } else {
        Some(owned(t))
    }
}

} // verus!

verus! {

/// A response line carrying identifier `k` reaches the slot that the call
/// under `k` filed, with the message itself; that identifier no longer
/// waits, and every other call keeps its slot.
pub proof fn lemma_line_reaches_its_caller<S>(
    before: PendingModel<S>,
    after: PendingModel<S>,
    line: Seq<char>,
    d: Delivery<S>,
    k: u64,
)
    requires
        before.wf(),
        before.slots.contains_key(k),
        trim_of(line).len() != 0,
        json_accepts(trim_of(line)),
        id_of(parsed_of(trim_of(line))) == Some(k),
        line_effect(before, after, line, d),
    ensures
        d == (Delivery::Deliver { slot: before.slots[k], message: parsed_of(trim_of(line)) }),
        after.slot_of(k) is None,
        forall|j: u64| j != k ==> #[trigger] after.slot_of(j) == before.slot_of(j),
{
}

} // verus!
