use codex_monitor::correlator::PendingTable;
use codex_monitor::demux::{classify_line, diagnostic_line, dispatch, reader_step, Delivery, Inbound, ReadEvent, ReaderStep};
use codex_monitor::rpc::{
    begin_call, encode_request, finish_call, frame_request, read_reply, reply_outcome, CallError, Reply,
    WaitOutcome,
};
use serde_json::Value;

fn value(text: &str) -> Value {
    serde_json::from_str(text).unwrap()
}

#[test]
fn identifiers_start_at_one_and_increase() {
    let mut t: PendingTable<&str> = PendingTable::new();
    assert_eq!(t.register("a"), Some(1));
    assert_eq!(t.register("b"), Some(2));
    assert_eq!(t.register("c"), Some(3));
    assert_eq!(t.waiting_count(), 3);
}

#[test]
fn responses_out_of_order_reach_their_callers() {
    let mut t: PendingTable<&str> = PendingTable::new();
    let a = t.register("first").unwrap();
    let b = t.register("second").unwrap();
    let c = t.register("third").unwrap();
    let line_c = format!("{{\"jsonrpc\":\"2.0\",\"id\":{c},\"result\":3}}");
    let line_a = format!("{{\"jsonrpc\":\"2.0\",\"id\":{a},\"result\":1}}");
    let line_b = format!("{{\"jsonrpc\":\"2.0\",\"id\":{b},\"result\":2}}");
    match dispatch(&mut t, classify_line(&line_c)) {
        Delivery::Deliver { slot, message } => {
            assert_eq!(slot, "third");
            assert_eq!(message["result"], Value::from(3));
        }
        _ => panic!("expected a delivery"),
    }
    match dispatch(&mut t, classify_line(&line_a)) {
        Delivery::Deliver { slot, .. } => assert_eq!(slot, "first"),
        _ => panic!("expected a delivery"),
    }
    match dispatch(&mut t, classify_line(&line_b)) {
        Delivery::Deliver { slot, .. } => assert_eq!(slot, "second"),
        _ => panic!("expected a delivery"),
    }
    assert_eq!(t.waiting_count(), 0);
}

#[test]
fn timeout_evicts_and_late_response_is_discarded() {
    let mut t: PendingTable<u32> = PendingTable::new();
    let id = t.register(5).unwrap();
    let r = finish_call(&mut t, id, WaitOutcome::TimedOut);
    assert!(matches!(r, Err(CallError::Timeout)));
    assert_eq!(r.unwrap_err().message(), "Request timed out");
    assert!(!t.is_waiting(id));
    let late = format!("{{\"id\":{id},\"result\":true}}");
    assert!(matches!(dispatch(&mut t, classify_line(&late)), Delivery::Discard));
    assert_eq!(t.waiting_count(), 0);
}

#[test]
fn channel_closed_is_its_own_error() {
    let mut t: PendingTable<u32> = PendingTable::new();
    let id = t.register(5).unwrap();
    let r = finish_call(&mut t, id, WaitOutcome::ChannelClosed);
    assert_eq!(r.unwrap_err().message(), "Response channel closed");
    assert!(!t.is_waiting(id));
}

#[test]
fn failed_write_settles_the_identifier() {
    let mut t: PendingTable<u32> = PendingTable::new();
    let id = t.register(5).unwrap();
    let other = t.register(6).unwrap();
    let r = finish_call(&mut t, id, WaitOutcome::WriteFailed("Failed to write to stdin: broken pipe".to_string()));
    assert_eq!(r.unwrap_err().message(), "Failed to write to stdin: broken pipe");
    assert!(!t.is_waiting(id));
    assert!(t.is_waiting(other));
    assert_eq!(t.register(7), Some(3));
}

#[test]
fn answered_call_decodes_the_response() {
    let mut t: PendingTable<u32> = PendingTable::new();
    let id = t.register(5).unwrap();
    let r = finish_call(&mut t, id, WaitOutcome::Answered(value("{\"id\":1,\"result\":[1,2]}")));
    assert_eq!(r.ok().unwrap(), Some(value("[1,2]")));
    let id = t.register(6).unwrap();
    let r = finish_call(&mut t, id, WaitOutcome::Answered(value("{\"id\":2,\"error\":{\"message\":\"nope\"}}")));
    assert_eq!(r.unwrap_err().message(), "nope");
    let r = finish_call(&mut t, 99, WaitOutcome::Answered(value("{\"id\":3,\"error\":{\"message\":7}}")));
    assert_eq!(r.unwrap_err().message(), "Unknown error");
    assert_eq!(t.waiting_count(), 0);
}

#[test]
fn malformed_lines_keep_the_reader_going() {
    let mut t: PendingTable<u32> = PendingTable::new();
    let id = t.register(1).unwrap();
    for bad in ["not json", "{\"jsonrpc\":\"2.0\"}", "   ", "", "{broken"] {
        match reader_step(&mut t, ReadEvent::Line(bad.to_string())) {
            ReaderStep::Continue(Delivery::Skip) => {}
            _ => panic!("a malformed line must be skipped"),
        }
    }
    assert!(t.is_waiting(id));
    let good = format!("{{\"id\":{id},\"result\":{{}}}}");
    match reader_step(&mut t, ReadEvent::Line(good)) {
        ReaderStep::Continue(Delivery::Deliver { slot, .. }) => assert_eq!(slot, 1),
        _ => panic!("a valid line after malformed ones is still handled"),
    }
}

#[test]
fn stream_end_stops_the_reader() {
    let mut t: PendingTable<u32> = PendingTable::new();
    match reader_step(&mut t, ReadEvent::Closed) {
        ReaderStep::Stop { message } => assert_eq!(message, "OpenCode process ended"),
        _ => panic!("expected stop"),
    }
    assert!(matches!(reader_step(&mut t, ReadEvent::Failed("broken pipe".to_string())), ReaderStep::Stop { .. }));
}

#[test]
fn notifications_carry_method_and_params() {
    let mut t: PendingTable<u32> = PendingTable::new();
    let line = "{\"jsonrpc\":\"2.0\",\"method\":\"session/update\",\"params\":{\"x\":1}}";
    match dispatch(&mut t, classify_line(line)) {
        Delivery::Notify { method, params } => {
            assert_eq!(method, "session/update");
            assert_eq!(params, Some(value("{\"x\":1}")));
        }
        _ => panic!("expected a notification"),
    }
    match classify_line("{\"method\":\"ping\"}") {
        Inbound::Notification { params, .. } => assert!(params.is_none()),
        _ => panic!("expected a notification"),
    }
}

#[test]
fn line_classes() {
    assert!(matches!(classify_line("  \t "), Inbound::Blank));
    assert!(matches!(classify_line("nope"), Inbound::Malformed));
    assert!(matches!(classify_line("[1,2]"), Inbound::Unrouted));
    assert!(matches!(classify_line("{\"id\":\"x\"}"), Inbound::Unrouted));
    assert!(matches!(classify_line("  {\"id\":4,\"method\":\"m\"}\r\n"), Inbound::Response { id: 4, .. }));
}

#[test]
fn remote_errors_pass_their_message() {
    let r = reply_outcome(read_reply(&value("{\"id\":1,\"error\":{\"code\":-1,\"message\":\"bad session\"}}")));
    assert_eq!(r.unwrap_err().message(), "bad session");
    let r = reply_outcome(read_reply(&value("{\"id\":1,\"error\":{\"code\":-1}}")));
    assert_eq!(r.unwrap_err().message(), "Unknown error");
    let r = reply_outcome(read_reply(&value("{\"id\":1,\"result\":{\"sessionId\":\"s1\"}}")));
    assert_eq!(r.ok().unwrap(), Some(value("{\"sessionId\":\"s1\"}")));
    let r = reply_outcome(read_reply(&value("{\"id\":1}")));
    assert_eq!(r.ok().unwrap(), None);
    assert!(matches!(reply_outcome(Reply::Failed { message: None }), Err(CallError::Remote(_))));
}

#[test]
fn request_framing() {
    assert_eq!(frame_request("\"m\"", "{}", 42), "{\"jsonrpc\":\"2.0\",\"method\":\"m\",\"params\":{},\"id\":42}\n");
    let line = encode_request("session/new", &value("{\"cwd\":\"/tmp\"}"), 7);
    assert_eq!(line, "{\"jsonrpc\":\"2.0\",\"method\":\"session/new\",\"params\":{\"cwd\":\"/tmp\"},\"id\":7}\n");
    let parsed: Value = serde_json::from_str(line.trim_end()).unwrap();
    assert_eq!(parsed["id"], Value::from(7u64));
    let quoted = encode_request("a\"b", &Value::Null, u64::MAX);
    assert!(quoted.contains("\"method\":\"a\\\"b\""));
    assert!(quoted.ends_with(",\"id\":18446744073709551615}\n"));
}

#[test]
fn begin_call_registers_before_framing() {
    let mut t: PendingTable<&str> = PendingTable::new();
    let (id, line) = begin_call(&mut t, "slot", "initialize", &value("{}")).ok().unwrap();
    assert_eq!(id, 1);
    assert!(t.is_waiting(1));
    assert_eq!(line, "{\"jsonrpc\":\"2.0\",\"method\":\"initialize\",\"params\":{},\"id\":1}\n");
}

#[test]
fn diagnostic_lines_lose_trailing_whitespace() {
    assert_eq!(diagnostic_line("  warn: slow start  \r\n"), Some("  warn: slow start".to_string()));
    assert_eq!(diagnostic_line(" x"), Some(" x".to_string()));
    assert_eq!(diagnostic_line("    at main.rs:10\n"), Some("    at main.rs:10".to_string()));
    assert_eq!(diagnostic_line(" \n"), None);
    assert_eq!(diagnostic_line(""), None);
}
