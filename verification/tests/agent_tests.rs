use aios::agent::{
    completed_without_response, Agent, AgentError, ChatResponse, FunctionCall, Phase, Role,
    ToolCall,
};
use aios::memory::MemoryType;
use aios::tools::{bash_result, list_result, ToolResult};
use aios::MAX_ITERATIONS;

fn s(x: &str) -> String {
    x.to_string()
}

fn agent() -> Agent {
    Agent::new(s("You are a helpful assistant."))
}

fn tool_call(id: &str, name: &str, arguments: &str) -> ToolCall {
    ToolCall {
        id: s(id),
        call_type: s("function"),
        function: FunctionCall {
            name: s(name),
            arguments: s(arguments),
        },
    }
}

fn content_turn(text: &str) -> ChatResponse {
    ChatResponse {
        content: s(text),
        tool_calls: None,
        finish_reason: s("stop"),
    }
}

fn tool_turn(calls: Vec<ToolCall>) -> ChatResponse {
    ChatResponse {
        content: s(""),
        tool_calls: Some(calls),
        finish_reason: s("tool_calls"),
    }
}

#[test]
fn new_agent_has_single_system_turn() {
    let a = agent();
    assert_eq!(a.history().len(), 1);
    assert_eq!(a.history()[0].role, Role::System);
    assert_eq!(a.history()[0].content, "You are a helpful assistant.");
}

#[test]
fn reset_returns_to_one_system_turn() {
    // idempotence of reset: length is exactly 1 regardless of prior length
    let mut a = agent();
    let (mut run, _audit) = a.begin_chat("hello");
    let _ = a.on_model_turn(&mut run, content_turn("hi there"));
    assert!(a.history().len() > 1);
    a.reset();
    assert_eq!(a.history().len(), 1);
    assert_eq!(a.history()[0].role, Role::System);
    a.reset();
    assert_eq!(a.history().len(), 1);
}

#[test]
fn single_reply_chat() {
    let mut a = agent();
    let (mut run, audit) = a.begin_chat("hello");
    assert_eq!(audit.content, "hello");
    assert!(matches!(audit.memory_type, MemoryType::Chat));
    assert_eq!(run.phase(), Phase::AwaitingModel);
    let out = a.on_model_turn(&mut run, content_turn("hi there")).unwrap();
    let reply_audit = out.expect("a final reply carries its audit record");
    assert_eq!(reply_audit.content, "hi there");
    assert_eq!(run.phase(), Phase::Done);
    assert_eq!(run.reply().as_deref(), Some("hi there"));
    assert_eq!(a.history().len(), 3);
}

#[test]
fn list_scenario_four_turns_three_audits() {
    // user asks for a listing; the stub model requests one invocation of
    // the list capability, then closes with "Done."
    let mut a = agent();
    let mut audits = Vec::new();

    let (mut run, audit) = a.begin_chat("list files in /tmp");
    audits.push(audit);

    let r = a.on_model_turn(
        &mut run,
        tool_turn(vec![tool_call("call_1", "list", "{\"path\":\"/tmp\"}")]),
    );
    assert!(matches!(r, Ok(None)));
    assert_eq!(run.phase(), Phase::ExecutingTools);
    assert_eq!(run.pending_count(), 1);
    assert_eq!(run.next_invocation().function.name, "list");

    let entries = vec![s("b.txt"), s("a.txt")];
    let result = list_result("/tmp", entries, None);
    audits.push(a.on_tool_result(&mut run, &result));
    assert_eq!(run.phase(), Phase::AwaitingModel);

    let r = a.on_model_turn(&mut run, content_turn("Done.")).unwrap();
    audits.push(r.expect("final reply audit"));

    assert_eq!(run.phase(), Phase::Done);
    assert_eq!(run.reply().as_deref(), Some("Done."));
    // system turn plus the four turns of the request
    assert_eq!(a.history().len(), 5);
    assert_eq!(a.history()[1].role, Role::User);
    assert_eq!(a.history()[2].role, Role::Assistant);
    assert!(a.history()[2].tool_calls.is_some());
    assert_eq!(a.history()[3].role, Role::Tool);
    assert_eq!(a.history()[4].role, Role::Assistant);
    assert_eq!(audits.len(), 3);
    assert!(matches!(audits[1].memory_type, MemoryType::Command));
}

#[test]
fn tool_result_correlates_to_its_invocation() {
    let mut a = agent();
    let (mut run, _) = a.begin_chat("run two things");
    let r = a.on_model_turn(
        &mut run,
        tool_turn(vec![
            tool_call("call_a", "bash", "{\"command\":\"true\"}"),
            tool_call("call_b", "bash", "{\"command\":\"false\"}"),
        ]),
    );
    assert!(matches!(r, Ok(None)));
    let res = bash_result(true, 0, "", "");
    a.on_tool_result(&mut run, &res);
    let res = bash_result(false, 1, "", "");
    a.on_tool_result(&mut run, &res);
    let h = a.history();
    let batch = h[2].tool_calls.as_ref().unwrap();
    assert_eq!(h[3].tool_call_id.as_deref(), Some("call_a"));
    assert_eq!(h[4].tool_call_id.as_deref(), Some("call_b"));
    // each correlates to exactly one invocation of the preceding turn
    for tool_turn_idx in [3, 4] {
        let id = h[tool_turn_idx].tool_call_id.as_deref().unwrap();
        let matches_in_batch = batch.iter().filter(|tc| tc.id == id).count();
        assert_eq!(matches_in_batch, 1);
    }
}

#[test]
fn shell_failure_is_data_not_abort() {
    // a command that exits 1 yields success=false, the output names the
    // exit code, and the loop continues
    let mut a = agent();
    let (mut run, _) = a.begin_chat("try something");
    a.on_model_turn(
        &mut run,
        tool_turn(vec![tool_call("c1", "bash", "{\"command\":\"exit 1\"}")]),
    )
    .unwrap();
    let res = bash_result(false, 1, "", "");
    assert!(!res.success);
    assert!(res.output.contains("1"));
    a.on_tool_result(&mut run, &res);
    assert_eq!(run.phase(), Phase::AwaitingModel);
    let r = a.on_model_turn(&mut run, content_turn("It failed.")).unwrap();
    assert!(r.is_some());
    assert_eq!(run.reply().as_deref(), Some("It failed."));
}

#[test]
fn provider_failure_aborts_and_keeps_user_turn() {
    // the provider is unavailable on the first call: the run aborts and
    // the conversation retains only the user turn appended before it
    let mut a = agent();
    let (mut run, _) = a.begin_chat("hello");
    let before = a.history().len();
    run.fail();
    assert_eq!(run.phase(), Phase::Aborted);
    assert_eq!(a.history().len(), before);
    assert_eq!(a.history().len(), 2);
    assert_eq!(a.history()[1].role, Role::User);
    assert_eq!(a.history()[1].content, "hello");
}

#[test]
fn ceiling_terminates_relentless_tool_caller() {
    // a stub that always requests another invocation terminates at the
    // ceiling with the no-response sentinel rather than spinning
    let mut a = agent();
    let (mut run, _) = a.begin_chat("loop forever");
    let mut provider_calls: u64 = 0;
    while run.phase() == Phase::AwaitingModel {
        let r = a.on_model_turn(
            &mut run,
            tool_turn(vec![tool_call(
                &format!("call_{}", provider_calls),
                "bash",
                "{\"command\":\"true\"}",
            )]),
        );
        assert!(r.is_ok());
        provider_calls += 1;
        while run.phase() == Phase::ExecutingTools {
            let res = bash_result(true, 0, "ok", "");
            a.on_tool_result(&mut run, &res);
        }
        assert!(provider_calls <= MAX_ITERATIONS);
    }
    assert_eq!(provider_calls, MAX_ITERATIONS);
    assert_eq!(run.iterations(), MAX_ITERATIONS);
    assert_eq!(run.phase(), Phase::Done);
    assert!(run.reply().is_none());
    assert_eq!(completed_without_response(), "Agent completed without response");
}

#[test]
fn empty_turn_ends_without_reply() {
    let mut a = agent();
    let (mut run, _) = a.begin_chat("say nothing");
    let r = a.on_model_turn(&mut run, content_turn("")).unwrap();
    assert!(r.is_none());
    assert_eq!(run.phase(), Phase::Done);
    assert!(run.reply().is_none());
    // no assistant turn is appended for an empty reply
    assert_eq!(a.history().len(), 2);
}

#[test]
fn duplicate_invocation_ids_abort_as_protocol_error() {
    let mut a = agent();
    let (mut run, _) = a.begin_chat("go");
    let before = a.history().len();
    let r = a.on_model_turn(
        &mut run,
        tool_turn(vec![
            tool_call("same", "bash", "{}"),
            tool_call("same", "read", "{}"),
        ]),
    );
    assert!(matches!(r, Err(AgentError::ProviderProtocolError(_))));
    assert_eq!(run.phase(), Phase::Aborted);
    assert_eq!(a.history().len(), before);
}

#[test]
fn serialized_chats_stay_contiguous() {
    // two chat requests run one after the other: each request's turns
    // stand contiguous in the final conversation
    let mut a = agent();
    let base = a.history().len();

    let (mut run1, _) = a.begin_chat("first");
    a.on_model_turn(&mut run1, content_turn("first reply")).unwrap();
    let after_first = a.history().len();

    let (mut run2, _) = a.begin_chat("second");
    a.on_model_turn(&mut run2, content_turn("second reply")).unwrap();

    let h = a.history();
    // first request's block
    assert_eq!(h[base].content, "first");
    assert_eq!(h[base + 1].content, "first reply");
    // second request's block, contiguous after the first
    assert_eq!(h[after_first].content, "second");
    assert_eq!(h[after_first + 1].content, "second reply");
    assert_eq!(h.len(), after_first + 2);
}

#[test]
fn sequential_batch_preserves_order() {
    // later invocations of one batch run after earlier ones: the pending
    // queue hands them out in the order the model emitted them
    let mut a = agent();
    let (mut run, _) = a.begin_chat("do three things");
    a.on_model_turn(
        &mut run,
        tool_turn(vec![
            tool_call("c1", "bash", "{\"command\":\"a\"}"),
            tool_call("c2", "bash", "{\"command\":\"b\"}"),
            tool_call("c3", "bash", "{\"command\":\"c\"}"),
        ]),
    )
    .unwrap();
    let mut seen = Vec::new();
    while run.phase() == Phase::ExecutingTools {
        seen.push(run.next_invocation().id.clone());
        let res = bash_result(true, 0, "", "");
        a.on_tool_result(&mut run, &res);
    }
    assert_eq!(seen, vec![s("c1"), s("c2"), s("c3")]);
    assert_eq!(run.phase(), Phase::AwaitingModel);
}
