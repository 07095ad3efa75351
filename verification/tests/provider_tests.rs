use aios::agent::{Agent, FunctionCall, Message, Role, ToolCall};
use aios::codec::from_json;
use aios::provider::{build_chat_request, model_turn_of_completion};
use aios::tools::ToolRegistry;

fn s(x: &str) -> String {
    x.to_string()
}

#[test]
fn chat_request_body_shape() {
    let mut a = Agent::new(s("be brief"));
    let (_run, _audit) = a.begin_chat("hello");
    let tools = ToolRegistry::new().list();
    let body = build_chat_request("gpt-4", a.history(), &tools);
    let v = from_json(&body).expect("the body is valid JSON");
    assert_eq!(
        aios::codec::get_str_field(&v, "model").map(|x| x.as_str()),
        Some("gpt-4")
    );
    assert_eq!(
        aios::codec::get_str_field(&v, "tool_choice").map(|x| x.as_str()),
        Some("auto")
    );
    match aios::codec::get_field(&v, "messages").unwrap() {
        aios::codec::JsonValue::Arr(items) => {
            assert_eq!(items.len(), 2);
            assert_eq!(
                aios::codec::get_str_field(&items[0], "role").map(|x| x.as_str()),
                Some("system")
            );
            assert_eq!(
                aios::codec::get_str_field(&items[1], "role").map(|x| x.as_str()),
                Some("user")
            );
            // absent members are left out, not written as null
            assert!(aios::codec::get_field(&items[0], "tool_calls").is_none());
        }
        _ => panic!("messages should be an array"),
    }
    match aios::codec::get_field(&v, "tools").unwrap() {
        aios::codec::JsonValue::Arr(items) => assert_eq!(items.len(), 4),
        _ => panic!("tools should be an array"),
    }
}

#[test]
fn tool_turn_serializes_invocations() {
    let msg = Message {
        role: Role::Assistant,
        content: s(""),
        tool_calls: Some(vec![ToolCall {
            id: s("c1"),
            call_type: s("function"),
            function: FunctionCall {
                name: s("bash"),
                arguments: s("{\"command\":\"ls\"}"),
            },
        }]),
        tool_call_id: None,
    };
    let body = build_chat_request("m", &vec![msg], &vec![]);
    let v = from_json(&body).unwrap();
    let items = match aios::codec::get_field(&v, "messages").unwrap() {
        aios::codec::JsonValue::Arr(items) => items,
        _ => panic!(),
    };
    let calls = match aios::codec::get_field(&items[0], "tool_calls").unwrap() {
        aios::codec::JsonValue::Arr(calls) => calls,
        _ => panic!(),
    };
    assert_eq!(
        aios::codec::get_str_field(&calls[0], "id").map(|x| x.as_str()),
        Some("c1")
    );
    let f = aios::codec::get_field(&calls[0], "function").unwrap();
    assert_eq!(
        aios::codec::get_str_field(f, "arguments").map(|x| x.as_str()),
        Some("{\"command\":\"ls\"}")
    );
}

#[test]
fn completion_with_content() {
    let v = from_json(
        "{\"choices\":[{\"message\":{\"content\":\"hi\"},\"finish_reason\":\"stop\"}]}",
    )
    .unwrap();
    let t = model_turn_of_completion(&v).unwrap();
    assert_eq!(t.content, "hi");
    assert!(t.tool_calls.is_none());
    assert_eq!(t.finish_reason, "stop");
}

#[test]
fn completion_with_tool_calls() {
    let v = from_json(
        "{\"choices\":[{\"message\":{\"content\":null,\"tool_calls\":[{\"id\":\"c9\",\"type\":\"function\",\"function\":{\"name\":\"read\",\"arguments\":\"{}\"}}]},\"finish_reason\":\"tool_calls\"}]}",
    )
    .unwrap();
    let t = model_turn_of_completion(&v).unwrap();
    assert_eq!(t.content, "");
    let calls = t.tool_calls.unwrap();
    assert_eq!(calls.len(), 1);
    assert_eq!(calls[0].id, "c9");
    assert_eq!(calls[0].function.name, "read");
}

#[test]
fn completion_without_choices_is_refused() {
    let v = from_json("{\"choices\":[]}").unwrap();
    assert_eq!(
        model_turn_of_completion(&v).unwrap_err(),
        "No choices in response"
    );
    let v = from_json("{}").unwrap();
    assert_eq!(
        model_turn_of_completion(&v).unwrap_err(),
        "No choices in response"
    );
}

#[test]
fn malformed_completion_is_refused() {
    let v = from_json("{\"choices\":[{\"message\":{\"content\":7},\"finish_reason\":\"x\"}]}")
        .unwrap();
    assert!(model_turn_of_completion(&v).is_err());
    let v = from_json("{\"choices\":[{\"finish_reason\":\"x\"}]}").unwrap();
    assert!(model_turn_of_completion(&v).is_err());
    let v = from_json(
        "{\"choices\":[{\"message\":{\"tool_calls\":[{\"id\":\"a\"}]},\"finish_reason\":\"x\"}]}",
    )
    .unwrap();
    assert!(model_turn_of_completion(&v).is_err());
}
