//! The capability provider boundary: the outbound call's body and the
//! reading of the returned turn.
//!
//! The provider itself is an outside service reached by the shell; what is
//! verified here is everything around that call: the JSON body carrying
//! the conversation and the advertised tools, and the interpretation of
//! the completion that comes back. A completion whose shape cannot be
//! interpreted is rejected, which the orchestrator treats as a protocol
//! error.

use vstd::prelude::*;
use vstd::string::*;
use crate::agent::{
    msg_views, tc_views, ChatResponse, FunctionCall, Message, MessageV, Role, ToolCall, ToolCallV,
    FunctionCallV,
};
use crate::codec::{
    get_field, get_field_spec, get_str_field, jv_elems, jv_fields, obj2, obj3, ser_val, str_val,
    to_json, JsonVal, JsonValue,
};
use crate::tools::{def_views, ToolDefinition, ToolDefinitionV};

verus! {

/// The wire name of a role.
pub open spec fn role_name(r: Role) -> Seq<char> {
    match r {
        Role::System => "system"@,
        Role::User => "user"@,
        Role::Assistant => "assistant"@,
        Role::Tool => "tool"@,
    }
}

fn role_name_x(r: Role) -> (s: &'static str)
    ensures
        s@ == role_name(r),
{
    match r {
        Role::System => "system",
        Role::User => "user",
        Role::Assistant => "assistant",
        Role::Tool => "tool",
    }
}

/// The document one invocation becomes on the wire.
pub open spec fn tc_jv(t: ToolCallV) -> JsonVal {
    JsonVal::Obj(
        seq![
            ("id"@, JsonVal::Str(t.id)),
            ("type"@, JsonVal::Str(t.call_type)),
            (
                "function"@,
                JsonVal::Obj(
                    seq![
                        ("name"@, JsonVal::Str(t.function.name)),
                        ("arguments"@, JsonVal::Str(t.function.arguments)),
                    ],
                ),
            ),
        ],
    )
}

/// The documents of a batch of invocations.
pub open spec fn tcs_jv(tcs: Seq<ToolCallV>) -> Seq<JsonVal> {
    Seq::new(tcs.len(), |i: int| tc_jv(tcs[i]))
}

fn tc_to_value(t: &ToolCall) -> (r: JsonValue)
    ensures
        r@ == tc_jv(t@),
{
    let f = obj2(
        "name",
        str_val(t.function.name.as_str()),
        "arguments",
        str_val(t.function.arguments.as_str()),
    );
    let r = obj3("id", str_val(t.id.as_str()), "type", str_val(t.call_type.as_str()), "function", f);
    proof {
        assert(r@ =~= tc_jv(t@));
    }
    r
}

/// The document one turn becomes on the wire: absent invocation and
/// correlation members are left out, as the provider expects.
pub open spec fn msg_jv(m: MessageV) -> JsonVal {
    JsonVal::Obj(
        seq![("role"@, JsonVal::Str(role_name(m.role))), ("content"@, JsonVal::Str(m.content))]
            + (match m.tool_calls {
            Some(tcs) => seq![("tool_calls"@, JsonVal::Arr(tcs_jv(tcs)))],
            None => Seq::empty(),
        }) + (match m.tool_call_id {
            Some(id) => seq![("tool_call_id"@, JsonVal::Str(id))],
            None => Seq::empty(),
        }),
    )
}

fn msg_to_value(m: &Message) -> (r: JsonValue)
    ensures
        r@ == msg_jv(m@),
{
    let mut fields: Vec<(String, JsonValue)> = Vec::new();
    fields.push((String::from_str("role"), str_val(role_name_x(m.role))));
    fields.push((String::from_str("content"), str_val(m.content.as_str())));
    match &m.tool_calls {
        Some(tcs) => {
            let mut items: Vec<JsonValue> = Vec::new();
            let mut i: usize = 0;
            while i < tcs.len()
                invariant
                    i <= tcs@.len(),
                    jv_elems(items@) == tcs_jv(tc_views(tcs@)).subrange(0, i as int),
                decreases tcs@.len() - i,
            {
                let ghost pre_items = items@;
                let item = tc_to_value(&tcs[i]);
                items.push(item);
                proof {
                    assert(items@ == pre_items.push(item));
                    assert(jv_elems(pre_items).len() == pre_items.len());
                    assert(tcs_jv(tc_views(tcs@)).subrange(0, i as int).len() == i as int);
                    assert forall|x: int| 0 <= x < items@.len() implies jv_elems(items@)[x]
                        == tcs_jv(tc_views(tcs@)).subrange(0, i as int + 1)[x] by {
                        if x < i as int {
                            assert(pre_items.push(item)[x] == pre_items[x]);
                            assert(jv_elems(pre_items)[x] == tcs_jv(tc_views(tcs@)).subrange(
                                0,
                                i as int,
                            )[x]);
                        } else {
                            assert(pre_items.push(item)[x] == item);
                            assert(tc_views(tcs@)[x] == tcs@[x]@);
                        }
                    }
                    assert(jv_elems(items@) =~= tcs_jv(tc_views(tcs@)).subrange(0, i as int + 1));
                }
                i = i + 1;
            }
            proof {
                assert(tcs_jv(tc_views(tcs@)).subrange(0, tcs@.len() as int) =~= tcs_jv(
                    tc_views(tcs@),
                ));
            }
            fields.push((String::from_str("tool_calls"), JsonValue::Arr(items)));
        },
        None => {},
    }
    match &m.tool_call_id {
        Some(id) => {
            fields.push((String::from_str("tool_call_id"), str_val(id.as_str())));
        },
        None => {},
    }
    let r = JsonValue::Obj(fields);
    proof {
        assert(r@ =~= msg_jv(m@)) by {
            assert(jv_fields(fields@) =~= msg_jv(m@)->Obj_0);
        }
    }
    r
}

/// The document one advertised capability becomes on the wire.
pub open spec fn def_jv(d: ToolDefinitionV) -> JsonVal {
    JsonVal::Obj(
        seq![
            ("type"@, JsonVal::Str("function"@)),
            (
                "function"@,
                JsonVal::Obj(
                    seq![
                        ("name"@, JsonVal::Str(d.name)),
                        ("description"@, JsonVal::Str(d.description)),
                        ("parameters"@, d.parameters),
                    ],
                ),
            ),
        ],
    )
}

/// The documents of the advertised capabilities.
pub open spec fn defs_jv(ds: Seq<ToolDefinitionV>) -> Seq<JsonVal> {
    Seq::new(ds.len(), |i: int| def_jv(ds[i]))
}

fn def_to_value(d: &ToolDefinition) -> (r: JsonValue)
    ensures
        r@ == def_jv(d@),
{
    let f = obj3(
        "name",
        str_val(d.name.as_str()),
        "description",
        str_val(d.description.as_str()),
        "parameters",
        crate::codec::dup_value(&d.parameters),
    );
    let r = obj2("type", str_val("function"), "function", f);
    proof {
        assert(r@ =~= def_jv(d@));
    }
    r
}

/// The body of one outbound provider call: the model's name, the whole
/// conversation, the advertised tools, and free tool choice.
pub open spec fn chat_body_jv(
    model: Seq<char>,
    ms: Seq<MessageV>,
    ds: Seq<ToolDefinitionV>,
) -> JsonVal {
    JsonVal::Obj(
        seq![
            ("model"@, JsonVal::Str(model)),
            ("messages"@, JsonVal::Arr(Seq::new(ms.len(), |i: int| msg_jv(ms[i])))),
            ("tools"@, JsonVal::Arr(defs_jv(ds))),
            ("tool_choice"@, JsonVal::Str("auto"@)),
        ],
    )
}

/// Serializes the body of one outbound provider call.
pub fn build_chat_request(
    model: &str,
    messages: &Vec<Message>,
    tools: &Vec<ToolDefinition>,
) -> (out: String)
    ensures
        out@ == ser_val(chat_body_jv(model@, msg_views(messages@), def_views(tools@))),
{
    let mut msg_items: Vec<JsonValue> = Vec::new();
    let mut i: usize = 0;
    while i < messages.len()
        invariant
            i <= messages@.len(),
            jv_elems(msg_items@) == Seq::new(
                i as nat,
                |x: int| msg_jv(msg_views(messages@)[x]),
            ),
        decreases messages@.len() - i,
    {
        let ghost pre_items = msg_items@;
        let item = msg_to_value(&messages[i]);
        msg_items.push(item);
        proof {
            assert(msg_items@ == pre_items.push(item));
            assert(jv_elems(pre_items).len() == pre_items.len());
            assert(pre_items.len() == i as int);
            assert forall|x: int| 0 <= x < msg_items@.len() implies jv_elems(msg_items@)[x]
                == msg_jv(msg_views(messages@)[x]) by {
                if x < i as int {
                    assert(pre_items.push(item)[x] == pre_items[x]);
                    assert(jv_elems(pre_items)[x] == Seq::new(
                        i as nat,
                        |y: int| msg_jv(msg_views(messages@)[y]),
                    )[x]);
                } else {
                    assert(pre_items.push(item)[x] == item);
                    assert(msg_views(messages@)[x] == messages@[x]@);
                }
            }
            assert(jv_elems(msg_items@) =~= Seq::new(
                i as nat + 1,
                |x: int| msg_jv(msg_views(messages@)[x]),
            ));
        }
        i = i + 1;
    }
    let mut def_items: Vec<JsonValue> = Vec::new();
    let mut i: usize = 0;
    while i < tools.len()
        invariant
            i <= tools@.len(),
            jv_elems(def_items@) == defs_jv(def_views(tools@)).subrange(0, i as int),
        decreases tools@.len() - i,
    {
        let ghost pre_items = def_items@;
        let item = def_to_value(&tools[i]);
        def_items.push(item);
        proof {
            assert(def_items@ == pre_items.push(item));
            assert(jv_elems(pre_items).len() == pre_items.len());
            assert(defs_jv(def_views(tools@)).subrange(0, i as int).len() == i as int);
            assert forall|x: int| 0 <= x < def_items@.len() implies jv_elems(def_items@)[x]
                == defs_jv(def_views(tools@)).subrange(0, i as int + 1)[x] by {
                if x < i as int {
                    assert(pre_items.push(item)[x] == pre_items[x]);
                    assert(jv_elems(pre_items)[x] == defs_jv(def_views(tools@)).subrange(
                        0,
                        i as int,
                    )[x]);
                } else {
                    assert(pre_items.push(item)[x] == item);
                    assert(def_views(tools@)[x] == tools@[x]@);
                }
            }
            assert(jv_elems(def_items@) =~= defs_jv(def_views(tools@)).subrange(
                0,
                i as int + 1,
            ));
        }
        i = i + 1;
    }
    proof {
        assert(defs_jv(def_views(tools@)).subrange(0, tools@.len() as int) =~= defs_jv(
            def_views(tools@),
        ));
    }
    let mut fields: Vec<(String, JsonValue)> = Vec::new();
    fields.push((String::from_str("model"), str_val(model)));
    fields.push((String::from_str("messages"), JsonValue::Arr(msg_items)));
    fields.push((String::from_str("tools"), JsonValue::Arr(def_items)));
    fields.push((String::from_str("tool_choice"), str_val("auto")));
    let body = JsonValue::Obj(fields);
    proof {
        assert(jv_elems(msg_items@) =~= Seq::new(
            msg_views(messages@).len(),
            |x: int| msg_jv(msg_views(messages@)[x]),
        ));
        assert(fields@[0].0@ == "model"@);
        assert(fields@[0].1@ == JsonVal::Str(model@));
        assert(fields@[1].0@ == "messages"@);
        assert(fields@[1].1@ == JsonVal::Arr(jv_elems(msg_items@)));
        assert(fields@[2].0@ == "tools"@);
        assert(fields@[2].1@ == JsonVal::Arr(jv_elems(def_items@)));
        assert(fields@[3].0@ == "tool_choice"@);
        assert(fields@[3].1@ == JsonVal::Str("auto"@));
        assert(jv_fields(fields@) =~= chat_body_jv(
            model@,
            msg_views(messages@),
            def_views(tools@),
        )->Obj_0);
        assert(body@ =~= chat_body_jv(model@, msg_views(messages@), def_views(tools@)));
    }
    to_json(&body)
}

// ---------------------------------------------------------------------------
// Reading the completion that comes back.
// ---------------------------------------------------------------------------

/// The invocation a wire document stands for, if it carries the string
/// `id`, `type` and `function.name` / `function.arguments` members.
pub open spec fn tc_of_jv(v: JsonVal) -> Option<ToolCallV> {
    match (
        get_field_spec(v, "id"@),
        get_field_spec(v, "type"@),
        get_field_spec(v, "function"@),
    ) {
        (Some(JsonVal::Str(id)), Some(JsonVal::Str(ct)), Some(f)) => match (
            get_field_spec(f, "name"@),
            get_field_spec(f, "arguments"@),
        ) {
            (Some(JsonVal::Str(n)), Some(JsonVal::Str(a))) => Some(
                ToolCallV { id, call_type: ct, function: FunctionCallV { name: n, arguments: a } },
            ),
            _ => None,
        },
        _ => None,
    }
}

/// The batch `elems[k..]` stands for, if every element is an invocation.
pub open spec fn tcs_of_elems(elems: Seq<JsonVal>, k: int) -> Option<Seq<ToolCallV>>
    decreases elems.len() - k,
{
    if k < 0 || k >= elems.len() {
        Some(Seq::empty())
    } else {
        match tc_of_jv(elems[k]) {
            Some(t) => match tcs_of_elems(elems, k + 1) {
                Some(r) => Some(seq![t] + r),
                None => None,
            },
            None => None,
        }
    }
}

/// The content of a completion's message: a string, with null or absent
/// read as empty; any other shape is malformed.
pub open spec fn content_of(msg: JsonVal) -> Option<Seq<char>> {
    match get_field_spec(msg, "content"@) {
        Some(f) => match f {
            JsonVal::Str(s) => Some(s),
            JsonVal::Null => Some(""@),
            _ => None,
        },
        None => Some(""@),
    }
}

/// The invocations of a completion's message: an array of invocations,
/// with null or absent read as none; any other shape is malformed.
pub open spec fn tool_calls_of(msg: JsonVal) -> Option<Option<Seq<ToolCallV>>> {
    match get_field_spec(msg, "tool_calls"@) {
        Some(f) => match f {
            JsonVal::Arr(es) => match tcs_of_elems(es, 0) {
                Some(ts) => Some(Some(ts)),
                None => None,
            },
            JsonVal::Null => Some(None),
            _ => None,
        },
        None => Some(None),
    }
}

/// Whether a completion carries at least one choice.
pub open spec fn has_choices(v: JsonVal) -> bool {
    match get_field_spec(v, "choices"@) {
        Some(f) => f is Arr && f->Arr_0.len() > 0,
        _ => false,
    }
}

/// The model turn a completion stands for: the first choice's message and
/// finish reason.
pub open spec fn model_turn_of(v: JsonVal) -> Option<crate::agent::ChatResponseV> {
    match get_field_spec(v, "choices"@) {
        Some(f) => match f {
            JsonVal::Arr(choices) => if choices.len() == 0 {
                None
            } else {
                let c0 = choices[0];
                match (get_field_spec(c0, "message"@), get_field_spec(c0, "finish_reason"@)) {
                    (Some(msg), Some(JsonVal::Str(fin))) => match (
                        content_of(msg),
                        tool_calls_of(msg),
                    ) {
                        (Some(content), Some(tcs)) => Some(
                            crate::agent::ChatResponseV { content, tool_calls: tcs, finish_reason: fin },
                        ),
                        _ => None,
                    },
                    _ => None,
                }
            },
            _ => None,
        },
        None => None,
    }
}

fn parse_tc(v: &JsonValue) -> (r: Option<ToolCall>)
    ensures
        match r {
            Some(t) => tc_of_jv(v@) == Some(t@),
            None => tc_of_jv(v@) is None,
        },
{
    let id = match get_str_field(v, "id") {
        Some(s) => String::from_str(s.as_str()),
        None => {
            return None;
        },
    };
    let call_type = match get_str_field(v, "type") {
        Some(s) => String::from_str(s.as_str()),
        None => {
            return None;
        },
    };
    match get_field(v, "function") {
        Some(f) => {
            let name = match get_str_field(f, "name") {
                Some(s) => String::from_str(s.as_str()),
                None => {
                    return None;
                },
            };
            let arguments = match get_str_field(f, "arguments") {
                Some(s) => String::from_str(s.as_str()),
                None => {
                    return None;
                },
            };
            let t = ToolCall { id, call_type, function: FunctionCall { name, arguments } };
            proof {
                assert(tc_of_jv(v@) == Some(t@));
            }
            Some(t)
        },
        None => None,
    }
}

fn parse_tcs(items: &Vec<JsonValue>, k: usize) -> (r: Option<Vec<ToolCall>>)
    requires
        k <= items@.len(),
    ensures
        match r {
            Some(ts) => tcs_of_elems(jv_elems(items@), k as int) == Some(tc_views(ts@)),
            None => tcs_of_elems(jv_elems(items@), k as int) is None,
        },
    decreases items@.len() - k,
{
    if k == items.len() {
        let ts: Vec<ToolCall> = Vec::new();
        proof {
            assert(tc_views(ts@) =~= Seq::<ToolCallV>::empty());
        }
        Some(ts)
    } else {
        match parse_tc(&items[k]) {
            Some(t) => match parse_tcs(items, k + 1) {
                Some(rest) => {
                    let ghost tail = rest@;
                    let mut ts = rest;
                    ts.insert(0, t);
                    proof {
                        broadcast use vstd::seq_lib::lemma_seq_skip_len;

                        tail.insert_ensures(0, t);
                        assert(jv_elems(items@)[k as int] == items@[k as int]@);
                        assert forall|m: int| 0 <= m < tc_views(ts@).len() implies tc_views(
                            ts@,
                        )[m] == (seq![t@] + tc_views(tail))[m] by {
                            if m == 0 {
                                assert(ts@[0] == t);
                            } else {
                                assert(tail.insert(0, t)[(m - 1) + 1] == tail[m - 1]);
                                assert(ts@[m] == tail[m - 1]);
                                assert(tc_views(tail)[m - 1] == tail[m - 1]@);
                            }
                        }
                        assert(tc_views(ts@) =~= seq![t@] + tc_views(tail));
                    }
                    Some(ts)
                },
                None => None,
            },
            None => None,
        }
    }
}

/// Reads the completion a provider returned into a model turn. The error
/// text distinguishes a completion without choices from one whose shape
/// cannot be interpreted.
pub fn model_turn_of_completion(v: &JsonValue) -> (r: Result<ChatResponse, String>)
    ensures
        match r {
            Ok(t) => model_turn_of(v@) == Some(t@),
            Err(e) => model_turn_of(v@) is None && (if !has_choices(v@) {
                e@ == "No choices in response"@
            } else {
                e@ == "Failed to parse OpenAI API response"@
            }),
        },
{
    let choices = match get_field(v, "choices") {
        Some(f) => match f {
            JsonValue::Arr(choices) => choices,
            _ => {
                return Err(String::from_str("No choices in response"));
            },
        },
        None => {
            return Err(String::from_str("No choices in response"));
        },
    };
    if choices.len() == 0 {
        return Err(String::from_str("No choices in response"));
    }
    let c0 = &choices[0];
    proof {
        assert(jv_elems(choices@)[0] == choices@[0]@);
    }
    let msg = match get_field(c0, "message") {
        Some(m) => m,
        None => {
            return Err(String::from_str("Failed to parse OpenAI API response"));
        },
    };
    let finish_reason = match get_str_field(c0, "finish_reason") {
        Some(s) => String::from_str(s.as_str()),
        None => {
            return Err(String::from_str("Failed to parse OpenAI API response"));
        },
    };
    let content: String = match get_field(msg, "content") {
        Some(f) => match f {
            JsonValue::Str(s) => String::from_str(s.as_str()),
            JsonValue::Null => String::new(),
            _ => {
                return Err(String::from_str("Failed to parse OpenAI API response"));
            },
        },
        None => String::new(),
    };
    let tool_calls: Option<Vec<ToolCall>> = match get_field(msg, "tool_calls") {
        Some(f) => match f {
            JsonValue::Arr(es) => match parse_tcs(es, 0) {
                Some(ts) => Some(ts),
                None => {
                    return Err(String::from_str("Failed to parse OpenAI API response"));
                },
            },
            JsonValue::Null => None,
            _ => {
                return Err(String::from_str("Failed to parse OpenAI API response"));
            },
        },
        None => None,
    };
    let t = ChatResponse { content, tool_calls, finish_reason };
    proof {
        reveal_strlit("");
        assert(""@ =~= Seq::<char>::empty());
        assert(get_field_spec(v@, "choices"@) == Some(JsonVal::Arr(jv_elems(choices@))));
        assert(get_field_spec(jv_elems(choices@)[0], "message"@) == Some(msg@));
        assert(get_field_spec(jv_elems(choices@)[0], "finish_reason"@) == Some(
            JsonVal::Str(t@.finish_reason),
        ));
        assert(content_of(msg@) == Some(t@.content));
        assert(tool_calls_of(msg@) == Some(t@.tool_calls));
        assert(model_turn_of(v@) == Some(t@));
    }
    Ok(t)
}

} // verus!
