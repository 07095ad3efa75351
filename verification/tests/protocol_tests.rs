use aios::codec::JsonValue;
use aios::protocol::{
    classify_request, encode_request, encode_response, parse_request, parse_response, Command,
    Request, Response,
};

fn s(x: &str) -> String {
    x.to_string()
}

fn req(id: &str, method: &str, params: JsonValue) -> Request {
    Request {
        id: s(id),
        method: s(method),
        params,
    }
}

#[test]
fn request_round_trip() {
    let params = JsonValue::Obj(vec![
        (s("message"), JsonValue::Str(s("hello \"world\"\n"))),
        (s("extra"), JsonValue::Arr(vec![JsonValue::Int(-1), JsonValue::Null])),
    ]);
    let r = req("01HZX", "chat", params);
    let line = encode_request(&r);
    let back = parse_request(&line).expect("request should parse back");
    assert_eq!(back.id, r.id);
    assert_eq!(back.method, r.method);
    assert_eq!(back.params, r.params);
}

#[test]
fn request_round_trip_empty_params() {
    let r = req("i", "ping", JsonValue::Obj(vec![]));
    let back = parse_request(&encode_request(&r)).unwrap();
    assert_eq!(back.id, r.id);
    assert_eq!(back.method, r.method);
    assert_eq!(back.params, r.params);
}

#[test]
fn request_parse_requires_members() {
    assert!(parse_request("{\"id\":\"a\",\"method\":\"ping\"}").is_none());
    assert!(parse_request("{\"method\":\"ping\",\"params\":{}}").is_none());
    assert!(parse_request("not json").is_none());
    assert!(parse_request("[1,2]").is_none());
    // member order is free on the way in
    let r = parse_request("{\"params\":{},\"id\":\"a\",\"method\":\"ping\"}").unwrap();
    assert_eq!(r.id, "a");
    assert_eq!(r.method, "ping");
}

#[test]
fn response_carries_exactly_one() {
    let ok = Response::ok(s("7"), JsonValue::Obj(vec![(s("message"), JsonValue::Str(s("pong")))]));
    assert_eq!(ok.id, "7");
    assert!(ok.result.is_some() && ok.error.is_none());
    let err = Response::err(s("7"), s("boom"));
    assert!(err.result.is_none() && err.error.is_some());
}

#[test]
fn response_round_trip() {
    let ok = Response::ok(s("9"), JsonValue::Str(s("fine")));
    let back = parse_response(&encode_response(&ok)).unwrap();
    assert_eq!(back.id, "9");
    assert_eq!(back.result, Some(JsonValue::Str(s("fine"))));
    assert_eq!(back.error, None);

    let err = Response::err(s("9"), s("agent failed"));
    let back = parse_response(&encode_response(&err)).unwrap();
    assert_eq!(back.id, "9");
    assert_eq!(back.result, None);
    assert_eq!(back.error, Some(s("agent failed")));
}

#[test]
fn classify_methods() {
    let c = classify_request(&req(
        "1",
        "chat",
        JsonValue::Obj(vec![(s("message"), JsonValue::Str(s("hi")))]),
    ));
    assert!(matches!(c, Command::Chat { message } if message == "hi"));

    let c = classify_request(&req("1", "chat", JsonValue::Obj(vec![])));
    assert!(matches!(c, Command::Chat { message } if message.is_empty()));

    let c = classify_request(&req("1", "snapshot", JsonValue::Obj(vec![])));
    assert!(matches!(c, Command::Snapshot { description } if description == "Manual snapshot"));

    let c = classify_request(&req(
        "1",
        "snapshot",
        JsonValue::Obj(vec![(s("description"), JsonValue::Str(s("nightly")))]),
    ));
    assert!(matches!(c, Command::Snapshot { description } if description == "nightly"));

    let c = classify_request(&req("1", "list_snapshots", JsonValue::Obj(vec![])));
    assert!(matches!(c, Command::ListSnapshots));

    let c = classify_request(&req(
        "1",
        "restore",
        JsonValue::Obj(vec![(s("id"), JsonValue::Str(s("SNAP")))]),
    ));
    assert!(matches!(c, Command::Restore { id } if id == "SNAP"));

    let c = classify_request(&req("1", "ping", JsonValue::Obj(vec![])));
    assert!(matches!(c, Command::Ping));

    let c = classify_request(&req("1", "reboot", JsonValue::Obj(vec![])));
    assert!(matches!(c, Command::Unknown { method } if method == "reboot"));
}

#[test]
fn classify_non_object_params() {
    // a chat request whose params are not an object falls back to the
    // empty message, as the daemon reads it
    let c = classify_request(&req("1", "chat", JsonValue::Null));
    assert!(matches!(c, Command::Chat { message } if message.is_empty()));
}

#[test]
fn error_texts() {
    assert_eq!(
        aios::protocol::unknown_method_error("reboot"),
        "Unknown method: reboot"
    );
    assert_eq!(
        aios::protocol::prefixed_error("Agent error: ", "offline"),
        "Agent error: offline"
    );
}

#[test]
fn fresh_request_ids() {
    let a = Request::new("ping", JsonValue::Obj(vec![]));
    let b = Request::new("ping", JsonValue::Obj(vec![]));
    assert_eq!(a.id.chars().count(), 26);
    assert_eq!(b.id.chars().count(), 26);
    assert_ne!(a.id, b.id);
    assert_eq!(a.method, "ping");
}
