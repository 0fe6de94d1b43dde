//! End-to-end tests of the dispatch core: decode, routing, staleness,
//! serialization and framing, with the real JSON parser linked in.

use maple_rpc::dispatch::{plan_for, reply_for_decode_fail, Plan, Task};
use maple_rpc::entries::{format_entries, sort_entries, str_leq};
use maple_rpc::frame::frame;
use maple_rpc::handler::DefaultEventHandler;
use maple_rpc::json::JsonVal;
use maple_rpc::message::{decode_line, message_of_json, message_to_json, Message};
use maple_rpc::respond::{response_bytes, Payload, Response, RpcError};
use maple_rpc::router::{route, Method};
use maple_rpc::session::SessionContext;

/// Split a raw output stream into frames, checking each declared byte
/// length against its payload.
fn parse_frames(mut bytes: &[u8]) -> Vec<Vec<u8>> {
    let mut frames = Vec::new();
    while !bytes.is_empty() {
        let text = std::str::from_utf8(bytes).expect("frame header must be UTF-8");
        assert!(
            text.starts_with("Content-length: "),
            "frame must start with the length header"
        );
        let rest = &text["Content-length: ".len()..];
        let sep = rest.find("\n\n").expect("header must end with a blank line");
        let n: usize = rest[..sep].parse().expect("declared length must be a number");
        let payload_start = "Content-length: ".len() + sep + 2;
        assert!(bytes.len() >= payload_start + n, "payload must be complete");
        frames.push(bytes[payload_start..payload_start + n].to_vec());
        bytes = &bytes[payload_start + n..];
    }
    frames
}

fn payload_str(r: &Response) -> String {
    String::from_utf8(response_bytes(r)).expect("payload is ASCII")
}

#[test]
fn decode_valid_line() {
    let m = decode_line("{\"method\":\"typed\",\"params\":{\"query\":\"ab\",\"seq\":1},\"id\":1}")
        .expect("well-formed line must decode");
    assert_eq!(m.method, "typed");
    assert_eq!(m.id, 1);
    assert_eq!(m.params.len(), 2);
}

#[test]
fn decode_tolerates_surrounding_whitespace() {
    let m = decode_line("  {\"method\":\"init\",\"params\":{},\"id\":3}\n").unwrap();
    assert_eq!(m.method, "init");
    assert_eq!(m.id, 3);
    assert!(m.params.is_empty());
}

#[test]
fn decode_rejects_unknown_field_but_recovers_id() {
    let e = decode_line("{\"method\":\"typed\",\"params\":{},\"id\":7,\"extra\":true}")
        .expect_err("unknown top-level field must be rejected");
    assert_eq!(e.id, Some(7));
}

#[test]
fn decode_rejects_missing_field() {
    let e = decode_line("{\"method\":\"typed\",\"id\":4}").expect_err("params is required");
    assert_eq!(e.id, Some(4));
    let e = decode_line("{\"params\":{},\"id\":5}").expect_err("method is required");
    assert_eq!(e.id, Some(5));
}

#[test]
fn decode_rejects_bad_field_types() {
    // A negative id is not a u64, so the id cannot be recovered either.
    let e = decode_line("{\"method\":\"x\",\"params\":{},\"id\":-1}").expect_err("bad id");
    assert_eq!(e.id, None);
    let e = decode_line("{\"method\":7,\"params\":{},\"id\":2}").expect_err("bad method");
    assert_eq!(e.id, Some(2));
    let e = decode_line("{\"method\":\"x\",\"params\":3,\"id\":2}").expect_err("bad params");
    assert_eq!(e.id, Some(2));
}

#[test]
fn decode_rejects_duplicate_field() {
    // The JSON parser itself collapses duplicate keys, so feed the validator
    // a duplicated entry list directly.
    let v = JsonVal::Obj(vec![
        ("method".to_string(), JsonVal::Str("typed".to_string())),
        ("method".to_string(), JsonVal::Str("init".to_string())),
        ("id".to_string(), JsonVal::UInt(9)),
    ]);
    let e = message_of_json(v).expect_err("duplicate field must be rejected");
    assert_eq!(e.id, Some(9));
}

#[test]
fn decode_rejects_non_json_silently() {
    let e = decode_line("not json at all").expect_err("garbage is rejected");
    assert_eq!(e.id, None);
    assert!(reply_for_decode_fail(&e).is_none(), "no id, so nothing is written");
}

#[test]
fn decode_fail_with_id_is_reported() {
    let e = decode_line("{\"method\":\"x\",\"params\":{},\"id\":11,\"z\":0}").unwrap_err();
    let r = reply_for_decode_fail(&e).expect("id was recoverable");
    assert_eq!(r.id, Some(11));
    assert_eq!(payload_str(&r), "{\"error\":\"malformed request\",\"id\":11}");
}

#[test]
fn round_trip_message() {
    let line = "{\"method\":\"typed\",\"params\":{\"query\":\"a\\\"b\",\"seq\":2},\"id\":8}";
    let m = decode_line(line).unwrap();
    let method = m.method.clone();
    let id = m.id;
    let v = message_to_json(m);
    let m2 = message_of_json(v).expect("re-encoded message must decode");
    assert_eq!(m2.method, method);
    assert_eq!(m2.id, id);
    assert_eq!(m2.params.len(), 2);
    let mut saw_query = false;
    for (k, val) in &m2.params {
        if k == "query" {
            assert_eq!(*val, JsonVal::Str("a\"b".to_string()));
            saw_query = true;
        }
    }
    assert!(saw_query);
}

#[test]
fn router_selects_exactly_one() {
    assert_eq!(route("init"), Some(Method::Init));
    assert_eq!(route("move"), Some(Method::Move));
    assert_eq!(route("typed"), Some(Method::Typed));
    assert_eq!(route("frobnicate"), None);
    assert_eq!(route(""), None);
    assert_eq!(route("Init"), None);
}

#[test]
fn unknown_method_single_frame() {
    let m = decode_line("{\"method\":\"frobnicate\",\"params\":{},\"id\":9}").unwrap();
    let mut out: Vec<u8> = Vec::new();
    match plan_for(&m) {
        Plan::Reply(r) => out.extend(frame(response_bytes(&r))),
        Plan::Spawn(_) => panic!("an unknown method must not allocate a task"),
    }
    let frames = parse_frames(&out);
    assert_eq!(frames.len(), 1, "exactly one output frame");
    let payload = String::from_utf8(frames[0].clone()).unwrap();
    assert!(payload.contains("\"error\":\"unknown method\""));
    assert!(payload.contains("\"id\":9"));
}

#[test]
fn plan_typed_extracts_params() {
    let m = decode_line("{\"method\":\"typed\",\"params\":{\"query\":\"ab\",\"seq\":1},\"id\":1}")
        .unwrap();
    match plan_for(&m) {
        Plan::Spawn(Task::RunTyped { id, stamp, query }) => {
            assert_eq!(id, 1);
            assert_eq!(stamp, 1);
            assert_eq!(query, "ab");
        }
        other => panic!("expected a typed task, got {:?}", other),
    }
}

#[test]
fn plan_move_stamps_with_request_id() {
    let m = decode_line("{\"method\":\"move\",\"params\":{\"line\":42},\"id\":17}").unwrap();
    match plan_for(&m) {
        Plan::Spawn(Task::RunMove { id, stamp, line }) => {
            assert_eq!(id, 17);
            assert_eq!(stamp, 17);
            assert_eq!(line, 42);
        }
        other => panic!("expected a move task, got {:?}", other),
    }
}

#[test]
fn plan_rejects_missing_params() {
    let m = decode_line("{\"method\":\"typed\",\"params\":{\"query\":\"ab\"},\"id\":1}").unwrap();
    match plan_for(&m) {
        Plan::Reply(r) => {
            assert_eq!(r.id, Some(1));
            assert_eq!(payload_str(&r), "{\"error\":\"invalid params\",\"id\":1}");
        }
        other => panic!("expected an immediate error, got {:?}", other),
    }
    let m = decode_line("{\"method\":\"init\",\"params\":{},\"id\":2}").unwrap();
    assert!(matches!(plan_for(&m), Plan::Reply(_)));
}

#[test]
fn stale_typed_result_discarded() {
    // Scenario: seq=1 and seq=2 submitted in order, but seq=1's computation
    // finishes after seq=2's. Only the response for id=2 is written.
    let h = DefaultEventHandler;
    let mut ctx = SessionContext::new(".".to_string());
    let m1 = decode_line("{\"method\":\"typed\",\"params\":{\"query\":\"ab\",\"seq\":1},\"id\":1}")
        .unwrap();
    let m2 = decode_line("{\"method\":\"typed\",\"params\":{\"query\":\"abc\",\"seq\":2},\"id\":2}")
        .unwrap();
    let t1 = match plan_for(&m1) {
        Plan::Spawn(t) => t,
        _ => panic!("typed must spawn"),
    };
    let t2 = match plan_for(&m2) {
        Plan::Spawn(t) => t,
        _ => panic!("typed must spawn"),
    };
    let mut out: Vec<u8> = Vec::new();
    // seq=2 completes first and is delivered.
    if let Task::RunTyped { id, stamp, query } = t2 {
        let r = h.handle_on_typed(&mut ctx, id, stamp, query, Ok(vec!["abc.rs".to_string()]));
        let r = r.expect("the newest result is delivered");
        assert_eq!(r.id, Some(2));
        out.extend(frame(response_bytes(&r)));
    }
    // seq=1 completes later and is discarded without a response.
    if let Task::RunTyped { id, stamp, query } = t1 {
        let r = h.handle_on_typed(&mut ctx, id, stamp, query, Ok(vec!["ab.rs".to_string()]));
        assert!(r.is_none(), "the stale result must be discarded");
    }
    let frames = parse_frames(&out);
    assert_eq!(frames.len(), 1);
    let payload = String::from_utf8(frames[0].clone()).unwrap();
    assert!(payload.contains("\"id\":2"));
    assert_eq!(ctx.last_query, Some("abc".to_string()));
}

#[test]
fn typed_deliveries_are_monotone() {
    let h = DefaultEventHandler;
    let mut ctx = SessionContext::new(".".to_string());
    let mut delivered = Vec::new();
    for stamp in [2u64, 1, 3, 5, 4] {
        if let Some(r) =
            h.handle_on_typed(&mut ctx, stamp, stamp, format!("q{}", stamp), Ok(vec![]))
        {
            delivered.push(r.id.unwrap());
        }
    }
    assert_eq!(delivered, vec![2, 3, 5]);
}

#[test]
fn move_and_typed_streams_are_independent() {
    let h = DefaultEventHandler;
    let mut ctx = SessionContext::new(".".to_string());
    let r = h.handle_on_typed(&mut ctx, 10, 10, "q".to_string(), Ok(vec![]));
    assert!(r.is_some());
    // A move stamped lower than the typed stamp still goes through: the
    // streams are unrelated.
    let r = h.handle_on_move(&mut ctx, 3, 3, Ok("preview".to_string()));
    assert!(r.is_some());
    let r = h.handle_on_move(&mut ctx, 2, 2, Ok("older".to_string()));
    assert!(r.is_none());
}

#[test]
fn concurrent_frames_are_exact() {
    // Two tasks completing close together: each frame's declared byte
    // length exactly matches its payload, verified by re-reading the
    // stream.
    let h = DefaultEventHandler;
    let mut ctx = SessionContext::new(".".to_string());
    let mut out: Vec<u8> = Vec::new();
    let r = h
        .handle_on_move(&mut ctx, 1, 1, Ok("line one of lib.rs".to_string()))
        .unwrap();
    out.extend(frame(response_bytes(&r)));
    let r = h
        .handle_on_typed(
            &mut ctx,
            2,
            2,
            "lib".to_string(),
            Ok(vec!["lib.rs".to_string(), "lib/mod.rs".to_string()]),
        )
        .unwrap();
    out.extend(frame(response_bytes(&r)));
    let frames = parse_frames(&out);
    assert_eq!(frames.len(), 2);
    let p0 = String::from_utf8(frames[0].clone()).unwrap();
    let p1 = String::from_utf8(frames[1].clone()).unwrap();
    assert_eq!(p0, "{\"data\":\"line one of lib.rs\",\"id\":1}");
    assert_eq!(p1, "{\"data\":[\"lib.rs\",\"lib/mod.rs\"],\"id\":2}");
}

#[test]
fn handler_failure_always_reported() {
    let h = DefaultEventHandler;
    let mut ctx = SessionContext::new(".".to_string());
    assert!(h.handle_on_typed(&mut ctx, 5, 5, "q".to_string(), Ok(vec![])).is_some());
    // Even a stale task reports a collaborator failure.
    let r = h.handle_on_typed(&mut ctx, 1, 1, "old".to_string(), Err("engine died".to_string()));
    let r = r.expect("failures are reported, not discarded");
    assert_eq!(payload_str(&r), "{\"error\":\"engine died\",\"id\":1}");
    // And the failed task did not disturb the stream.
    assert_eq!(ctx.typed_delivered, Some(5));
}

#[test]
fn init_acknowledges_and_sets_cwd() {
    let h = DefaultEventHandler;
    let mut ctx = SessionContext::new(".".to_string());
    let r = h.handle_on_init(&mut ctx, 1, "/tmp".to_string(), Ok(()));
    assert_eq!(ctx.cwd, "/tmp");
    assert_eq!(payload_str(&r), "{\"data\":\"ready\",\"id\":1}");
    let r = h.handle_on_init(&mut ctx, 2, "/nope".to_string(), Err("unreadable".to_string()));
    assert_eq!(ctx.cwd, "/tmp", "a failed init leaves the directory alone");
    assert_eq!(payload_str(&r), "{\"error\":\"unreadable\",\"id\":2}");
}

#[test]
fn response_escapes_strings() {
    let r = Response {
        id: Some(1),
        body: Ok(Payload::Preview("a\"b\\c\nd\u{e9}\u{1F600}".to_string())),
    };
    assert_eq!(
        payload_str(&r),
        "{\"data\":\"a\\\"b\\\\c\\u000ad\\u00e9\\ud83d\\ude00\",\"id\":1}"
    );
}

#[test]
fn response_shapes() {
    let r = Response { id: Some(0), body: Ok(Payload::Matches(vec![])) };
    assert_eq!(payload_str(&r), "{\"data\":[],\"id\":0}");
    let r = Response { id: None, body: Err(RpcError::Malformed) };
    assert_eq!(payload_str(&r), "{\"error\":\"malformed request\"}");
    let r = Response { id: Some(18446744073709551615), body: Ok(Payload::Ready) };
    assert_eq!(payload_str(&r), "{\"data\":\"ready\",\"id\":18446744073709551615}");
}

#[test]
fn produced_payload_is_valid_json() {
    let r = Response {
        id: Some(3),
        body: Ok(Payload::Matches(vec!["a\"b".to_string(), "c\\d".to_string()])),
    };
    let bytes = response_bytes(&r);
    let v: serde_json::Value = serde_json::from_slice(&bytes).expect("payload must be JSON");
    assert_eq!(v["id"], serde_json::Value::from(3u64));
    assert_eq!(v["data"][0], serde_json::Value::from("a\"b"));
    assert_eq!(v["data"][1], serde_json::Value::from("c\\d"));
}

#[test]
fn frame_is_exact() {
    let f = frame(b"abc".to_vec());
    assert_eq!(f, b"Content-length: 3\n\nabc".to_vec());
    let f = frame(Vec::new());
    assert_eq!(f, b"Content-length: 0\n\n".to_vec());
    let f = frame(vec![b'x'; 12345]);
    let frames = parse_frames(&f);
    assert_eq!(frames.len(), 1);
    assert_eq!(frames[0].len(), 12345);
}

#[test]
fn entries_formatted_and_sorted() {
    let raw = vec![
        ("src".to_string(), true),
        ("Cargo.toml".to_string(), false),
        ("app".to_string(), true),
    ];
    let formatted = format_entries(raw);
    assert_eq!(formatted, vec!["src/", "Cargo.toml", "app/"]);
    let sorted = sort_entries(formatted);
    assert_eq!(sorted, vec!["Cargo.toml", "app/", "src/"]);
}

#[test]
fn sort_keeps_duplicates() {
    let sorted = sort_entries(vec![
        "b".to_string(),
        "a".to_string(),
        "b".to_string(),
        "".to_string(),
    ]);
    assert_eq!(sorted, vec!["", "a", "b", "b"]);
}

#[test]
fn string_order_is_lexicographic() {
    assert!(str_leq("", "a"));
    assert!(str_leq("a", "ab"));
    assert!(!str_leq("ab", "a"));
    assert!(str_leq("abc", "abd"));
    assert!(str_leq("a", "a"));
    assert!(str_leq("A", "a"));
    // Matches the standard library's order on strings.
    let (a, b) = ("Cargo.toml", "app/");
    assert_eq!(str_leq(a, b), a <= b);
}

#[test]
fn reader_survives_bad_lines() {
    // A malformed line is reported and dropped; the next valid line is
    // still processed.
    let lines = [
        "{\"method\":\"typed\",\"params\":", // truncated JSON
        "{\"method\":\"typed\",\"params\":{\"query\":\"a\",\"seq\":1},\"id\":1}",
    ];
    let mut decoded = Vec::new();
    for line in lines {
        match decode_line(line) {
            Ok(m) => decoded.push(m),
            Err(e) => assert_eq!(e.id, None),
        }
    }
    assert_eq!(decoded.len(), 1);
    assert_eq!(decoded[0].id, 1);
}

#[test]
fn message_reencodes_as_object() {
    let m = Message {
        method: "init".to_string(),
        params: vec![("cwd".to_string(), JsonVal::Str("/tmp".to_string()))],
        id: 6,
    };
    let v = message_to_json(m);
    match &v {
        JsonVal::Obj(entries) => {
            assert_eq!(entries.len(), 3);
            assert_eq!(entries[0].0, "method");
            assert_eq!(entries[1].0, "params");
            assert_eq!(entries[2].0, "id");
        }
        other => panic!("expected an object, got {:?}", other),
    }
    let m2 = message_of_json(v).unwrap();
    assert_eq!(m2.method, "init");
    assert_eq!(m2.id, 6);
}
