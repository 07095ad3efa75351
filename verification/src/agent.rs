//! The orchestrator: one agent owns one conversation and drives the
//! bounded tool-calling loop over it.
//!
//! The loop is an explicit state machine. A chat request starts in
//! `AwaitingModel`; each model turn either requests tool invocations
//! (`ExecutingTools`), finishes with content (`Done`), or finishes empty
//! (`Done` with no reply). Tool results are folded back one at a time, and
//! the loop returns to `AwaitingModel` until the iteration ceiling is
//! reached. Provider failures and malformed batches abort the run
//! (`Aborted`) and leave the conversation at its last consistent state.
//!
//! The conversation invariant `conv_wf` is maintained by every step: the
//! history starts with exactly one System turn, and every Tool turn
//! answers exactly one invocation of the closest preceding Assistant turn.

use vstd::prelude::*;
use vstd::string::*;
use crate::MAX_ITERATIONS;
use crate::memory::{Memory, MemoryType};
use crate::tools::ToolResult;

verus! {

/// Who speaks in a turn.
#[derive(Debug, Clone, Copy, PartialEq, Eq, Structural)]
pub enum Role {
    System,
    User,
    Assistant,
    Tool,
}

/// The states of one chat request's loop.
#[derive(Debug, Clone, Copy, PartialEq, Eq, Structural)]
pub enum Phase {
    AwaitingModel,
    ExecutingTools,
    Done,
    Aborted,
}

/// The function a tool invocation names, with its raw argument text.
#[derive(Debug)]
pub struct FunctionCall {
    pub name: String,
    pub arguments: String,
}

/// One tool invocation requested by the model.
#[derive(Debug)]
pub struct ToolCall {
    pub id: String,
    pub call_type: String,
    pub function: FunctionCall,
}

/// One turn of a conversation.
#[derive(Debug)]
pub struct Message {
    pub role: Role,
    pub content: String,
    pub tool_calls: Option<Vec<ToolCall>>,
    pub tool_call_id: Option<String>,
}

/// What the capability provider returned for one model turn.
#[derive(Debug)]
pub struct ChatResponse {
    pub content: String,
    pub tool_calls: Option<Vec<ToolCall>>,
    pub finish_reason: String,
}

/// Why a chat run aborted.
#[derive(Debug)]
pub enum AgentError {
    /// The provider could not be reached or failed.
    ProviderUnavailable(String),
    /// The provider's answer could not be interpreted.
    ProviderProtocolError(String),
    /// An invocation named a tool the registry does not hold.
    ToolNotFound(String),
    /// An invocation's argument payload was malformed.
    InvalidArguments(String),
}

pub struct FunctionCallV {
    pub name: Seq<char>,
    pub arguments: Seq<char>,
}

pub struct ToolCallV {
    pub id: Seq<char>,
    pub call_type: Seq<char>,
    pub function: FunctionCallV,
}

pub struct MessageV {
    pub role: Role,
    pub content: Seq<char>,
    pub tool_calls: Option<Seq<ToolCallV>>,
    pub tool_call_id: Option<Seq<char>>,
}

impl View for FunctionCall {
    type V = FunctionCallV;

    open spec fn view(&self) -> FunctionCallV {
        FunctionCallV { name: self.name@, arguments: self.arguments@ }
    }
}

impl View for ToolCall {
    type V = ToolCallV;

    open spec fn view(&self) -> ToolCallV {
        ToolCallV { id: self.id@, call_type: self.call_type@, function: self.function@ }
    }
}

/// The views of a sequence of tool invocations.
pub open spec fn tc_views(s: Seq<ToolCall>) -> Seq<ToolCallV> {
    Seq::new(s.len(), |i: int| s[i]@)
}

/// The views of an optional batch of tool invocations.
pub open spec fn opt_tc_views(o: &Option<Vec<ToolCall>>) -> Option<Seq<ToolCallV>> {
    match o {
        Some(v) => Some(tc_views(v@)),
        None => None,
    }
}

impl View for Message {
    type V = MessageV;

    open spec fn view(&self) -> MessageV {
        MessageV {
            role: self.role,
            content: self.content@,
            tool_calls: opt_tc_views(&self.tool_calls),
            tool_call_id: match &self.tool_call_id {
                Some(s) => Some(s@),
                None => None,
            },
        }
    }
}

/// The views of a conversation.
pub open spec fn msg_views(s: Seq<Message>) -> Seq<MessageV> {
    Seq::new(s.len(), |i: int| s[i]@)
}

pub struct ChatResponseV {
    pub content: Seq<char>,
    pub tool_calls: Option<Seq<ToolCallV>>,
    pub finish_reason: Seq<char>,
}

impl View for ChatResponse {
    type V = ChatResponseV;

    open spec fn view(&self) -> ChatResponseV {
        ChatResponseV {
            content: self.content@,
            tool_calls: opt_tc_views(&self.tool_calls),
            finish_reason: self.finish_reason@,
        }
    }
}

// ---------------------------------------------------------------------------
// The conversation invariant.
// ---------------------------------------------------------------------------

/// How many of the batch's invocation identifiers equal `id`.
pub open spec fn count_id(tcs: Seq<ToolCallV>, id: Seq<char>) -> nat
    decreases tcs.len(),
{
    if tcs.len() == 0 {
        0
    } else {
        (if tcs[0].id == id {
            1nat
        } else {
            0nat
        }) + count_id(tcs.drop_first(), id)
    }
}

/// The batch's invocation identifiers are pairwise distinct.
pub open spec fn tc_ids_distinct(tcs: Seq<ToolCallV>) -> bool {
    forall|i: int, j: int|
        0 <= i < j < tcs.len() ==> (#[trigger] tcs[i].id) != (#[trigger] tcs[j].id)
}

/// The Tool turn at `i` answers exactly one invocation of the closest
/// preceding Assistant turn, with only Tool turns between them.
pub open spec fn tool_msg_ok(msgs: Seq<MessageV>, i: int) -> bool {
    exists|a: int|
        {
            &&& 0 <= a < i
            &&& (#[trigger] msgs[a].role) == Role::Assistant
            &&& msgs[a].tool_calls is Some
            &&& (forall|m: int| a < m < i ==> (#[trigger] msgs[m].role) == Role::Tool)
            &&& msgs[i].tool_call_id is Some
            &&& count_id(msgs[a].tool_calls->0, msgs[i].tool_call_id->0) == 1
        }
}

/// Well-formedness of a conversation: exactly one System turn and it comes
/// first; every Assistant batch has distinct invocation identifiers; and
/// every Tool turn is correlated to exactly one invocation of the closest
/// preceding Assistant turn.
pub open spec fn conv_wf(msgs: Seq<MessageV>) -> bool {
    &&& msgs.len() >= 1
    &&& msgs[0].role == Role::System
    &&& forall|i: int| 1 <= i < msgs.len() ==> (#[trigger] msgs[i].role) != Role::System
    &&& forall|i: int|
        0 <= i < msgs.len() && (#[trigger] msgs[i].role) == Role::Assistant
            && msgs[i].tool_calls is Some ==> tc_ids_distinct(msgs[i].tool_calls->0)
    &&& forall|i: int|
        0 <= i < msgs.len() && (#[trigger] msgs[i].role) == Role::Tool ==> tool_msg_ok(msgs, i)
}

/// How many Tool turns stand at the end of the conversation.
pub open spec fn trailing_tools(msgs: Seq<MessageV>) -> int
    decreases msgs.len(),
{
    if msgs.len() == 0 {
        0
    } else if msgs.last().role == Role::Tool {
        1 + trailing_tools(msgs.drop_last())
    } else {
        0
    }
}

proof fn lemma_trailing_tools_props(msgs: Seq<MessageV>)
    ensures
        0 <= trailing_tools(msgs) <= msgs.len(),
        forall|m: int|
            msgs.len() - trailing_tools(msgs) <= m < msgs.len() ==> (#[trigger] msgs[m].role)
                == Role::Tool,
        trailing_tools(msgs) < msgs.len() ==> msgs[msgs.len() - 1 - trailing_tools(msgs)].role
            != Role::Tool,
    decreases msgs.len(),
{
    if msgs.len() > 0 && msgs.last().role == Role::Tool {
        lemma_trailing_tools_props(msgs.drop_last());
        let t = trailing_tools(msgs);
        assert forall|m: int| msgs.len() - t <= m < msgs.len() implies (#[trigger] msgs[m].role)
            == Role::Tool by {
            if m < msgs.len() - 1 {
                assert(msgs.drop_last()[m].role == Role::Tool);
            }
        }
        if t < msgs.len() {
            assert(msgs.drop_last()[msgs.len() - 1 - t].role != Role::Tool);
        }
    }
}

proof fn lemma_trailing_tools_push(msgs: Seq<MessageV>, m: MessageV)
    ensures
        trailing_tools(msgs.push(m)) == if m.role == Role::Tool {
            trailing_tools(msgs) + 1
        } else {
            0
        },
{
    assert(msgs.push(m).drop_last() =~= msgs);
    assert(msgs.push(m).last() == m);
}

proof fn lemma_count_zero(tcs: Seq<ToolCallV>, id: Seq<char>)
    requires
        forall|i: int| 0 <= i < tcs.len() ==> (#[trigger] tcs[i].id) != id,
    ensures
        count_id(tcs, id) == 0,
    decreases tcs.len(),
{
    if tcs.len() > 0 {
        lemma_count_zero(tcs.drop_first(), id);
    }
}

proof fn lemma_count_distinct(tcs: Seq<ToolCallV>, k: int)
    requires
        tc_ids_distinct(tcs),
        0 <= k < tcs.len(),
    ensures
        count_id(tcs, tcs[k].id) == 1,
    decreases k,
{
    if k == 0 {
        assert forall|i: int| 0 <= i < tcs.drop_first().len() implies (#[trigger] tcs.drop_first()[i].id)
            != tcs[0].id by {
            assert(tcs.drop_first()[i] == tcs[i + 1]);
        }
        lemma_count_zero(tcs.drop_first(), tcs[0].id);
    } else {
        assert(tcs.drop_first()[k - 1] == tcs[k]);
        lemma_count_distinct(tcs.drop_first(), k - 1);
    }
}

/// Appending a non-Tool, non-System turn preserves the conversation
/// invariant, provided an Assistant batch has distinct identifiers.
proof fn lemma_conv_push(msgs: Seq<MessageV>, m: MessageV)
    requires
        conv_wf(msgs),
        m.role != Role::System,
        m.role != Role::Tool,
        m.role == Role::Assistant && m.tool_calls is Some ==> tc_ids_distinct(m.tool_calls->0),
    ensures
        conv_wf(msgs.push(m)),
{
    let post = msgs.push(m);
    let len = msgs.len() as int;
    assert forall|i: int|
        0 <= i < post.len() && (#[trigger] post[i].role) == Role::Tool implies tool_msg_ok(
        post,
        i,
    ) by {
        assert(i < len);
        assert(post[i] == msgs[i]);
        let a = choose|a: int|
            {
                &&& 0 <= a < i
                &&& (#[trigger] msgs[a].role) == Role::Assistant
                &&& msgs[a].tool_calls is Some
                &&& (forall|x: int| a < x < i ==> (#[trigger] msgs[x].role) == Role::Tool)
                &&& msgs[i].tool_call_id is Some
                &&& count_id(msgs[a].tool_calls->0, msgs[i].tool_call_id->0) == 1
            };
        assert(post[a] == msgs[a]);
        assert forall|x: int| a < x < i implies (#[trigger] post[x].role) == Role::Tool by {
            assert(post[x] == msgs[x]);
        }
    }
}

/// Appending the Tool turn that answers the next pending invocation
/// preserves the conversation invariant.
proof fn lemma_conv_push_tool(msgs: Seq<MessageV>, m: MessageV, a: int, k: int)
    requires
        conv_wf(msgs),
        m.role == Role::Tool,
        0 <= a < msgs.len(),
        msgs[a].role == Role::Assistant,
        msgs[a].tool_calls is Some,
        forall|x: int| a < x < msgs.len() ==> (#[trigger] msgs[x].role) == Role::Tool,
        0 <= k < msgs[a].tool_calls->0.len(),
        m.tool_call_id == Some(msgs[a].tool_calls->0[k].id),
    ensures
        conv_wf(msgs.push(m)),
{
    let post = msgs.push(m);
    let len = msgs.len() as int;
    assert forall|i: int|
        0 <= i < post.len() && (#[trigger] post[i].role) == Role::Tool implies tool_msg_ok(
        post,
        i,
    ) by {
        if i < len {
            assert(post[i] == msgs[i]);
            let w = choose|w: int|
                {
                    &&& 0 <= w < i
                    &&& (#[trigger] msgs[w].role) == Role::Assistant
                    &&& msgs[w].tool_calls is Some
                    &&& (forall|x: int| w < x < i ==> (#[trigger] msgs[x].role) == Role::Tool)
                    &&& msgs[i].tool_call_id is Some
                    &&& count_id(msgs[w].tool_calls->0, msgs[i].tool_call_id->0) == 1
                };
            assert(post[w] == msgs[w]);
            assert forall|x: int| w < x < i implies (#[trigger] post[x].role) == Role::Tool by {
                assert(post[x] == msgs[x]);
            }
        } else {
            assert(i == len);
            assert(post[a] == msgs[a]);
            let tcs = msgs[a].tool_calls->0;
            assert(tc_ids_distinct(tcs));
            lemma_count_distinct(tcs, k);
            assert forall|x: int| a < x < i implies (#[trigger] post[x].role) == Role::Tool by {
                assert(post[x] == msgs[x]);
            }
            assert(post[i].tool_call_id is Some);
            assert(count_id(post[a].tool_calls->0, post[i].tool_call_id->0) == 1);
        }
    }
}

// ---------------------------------------------------------------------------
// The agent and one chat run.
// ---------------------------------------------------------------------------

/// The orchestrator: the conversation it owns and the prompt its System
/// turn carries.
pub struct Agent {
    messages: Vec<Message>,
    system_prompt: String,
}

pub struct AgentV {
    pub messages: Seq<MessageV>,
    pub system_prompt: Seq<char>,
}

impl View for Agent {
    type V = AgentV;

    closed spec fn view(&self) -> AgentV {
        AgentV { messages: msg_views(self.messages@), system_prompt: self.system_prompt@ }
    }
}

/// The state of one in-flight chat request.
pub struct ChatRun {
    iterations: u64,
    phase: Phase,
    pending: Vec<ToolCall>,
    reply: Option<String>,
}

pub struct ChatRunV {
    pub iterations: u64,
    pub phase: Phase,
    pub pending: Seq<ToolCallV>,
    pub reply: Option<Seq<char>>,
}

impl View for ChatRun {
    type V = ChatRunV;

    closed spec fn view(&self) -> ChatRunV {
        ChatRunV {
            iterations: self.iterations,
            phase: self.phase,
            pending: tc_views(self.pending@),
            reply: match &self.reply {
                Some(s) => Some(s@),
                None => None,
            },
        }
    }
}

pub open spec fn system_msg(content: Seq<char>) -> MessageV {
    MessageV { role: Role::System, content, tool_calls: None, tool_call_id: None }
}

pub open spec fn user_msg(content: Seq<char>) -> MessageV {
    MessageV { role: Role::User, content, tool_calls: None, tool_call_id: None }
}

pub open spec fn assistant_msg(content: Seq<char>, tcs: Option<Seq<ToolCallV>>) -> MessageV {
    MessageV { role: Role::Assistant, content, tool_calls: tcs, tool_call_id: None }
}

pub open spec fn tool_msg(content: Seq<char>, id: Seq<char>) -> MessageV {
    MessageV { role: Role::Tool, content, tool_calls: None, tool_call_id: Some(id) }
}

/// A run that still stands in `ExecutingTools` answers the batch of the
/// closest preceding Assistant turn: the trailing Tool turns are the
/// results so far, and `pending` is exactly the rest of that batch.
pub open spec fn executing_wf(msgs: Seq<MessageV>, run: ChatRunV) -> bool {
    let t = trailing_tools(msgs);
    let a = msgs.len() - 1 - t;
    &&& run.pending.len() >= 1
    &&& 0 <= a < msgs.len()
    &&& msgs[a].role == Role::Assistant
    &&& msgs[a].tool_calls is Some
    &&& t + run.pending.len() == msgs[a].tool_calls->0.len()
    &&& run.pending == msgs[a].tool_calls->0.skip(t)
}

/// Well-formedness of a run against its conversation: the iteration count
/// never exceeds the ceiling, a run still awaiting the model has room for
/// one more call, and a run executing tools matches the open batch.
pub open spec fn run_wf(msgs: Seq<MessageV>, run: ChatRunV) -> bool {
    &&& run.iterations <= MAX_ITERATIONS
    &&& (run.phase == Phase::AwaitingModel ==> run.iterations < MAX_ITERATIONS)
    &&& (run.phase == Phase::ExecutingTools ==> executing_wf(msgs, run))
}

/// The iteration ceiling is never exceeded: every well-formed run has made
/// at most `MAX_ITERATIONS` provider calls.
pub proof fn lemma_iterations_bounded(msgs: Seq<MessageV>, run: ChatRunV)
    requires
        run_wf(msgs, run),
    ensures
        run.iterations <= MAX_ITERATIONS,
{
}

/// Chat requests that run one after the other keep each request's turns
/// contiguous: when one run appends `b1` and a later run appends `b2`, the
/// final conversation holds `b1` and `b2` each as one block.
pub proof fn lemma_serial_chats_contiguous(
    conv0: Seq<MessageV>,
    b1: Seq<MessageV>,
    b2: Seq<MessageV>,
)
    ensures
        (conv0 + b1 + b2).subrange(conv0.len() as int, conv0.len() + b1.len() as int) == b1,
        (conv0 + b1 + b2).subrange(conv0.len() + b1.len() as int, (conv0 + b1 + b2).len() as int) == b2,
{
    assert((conv0 + b1 + b2).subrange(conv0.len() as int, conv0.len() + b1.len() as int) =~= b1);
    assert((conv0 + b1 + b2).subrange(conv0.len() + b1.len() as int, (conv0 + b1 + b2).len() as int)
        =~= b2);
}

fn dup_string(s: &String) -> (r: String)
    ensures
        r@ == s@,
{
    String::from_str(s.as_str())
}

fn dup_tool_call(tc: &ToolCall) -> (r: ToolCall)
    ensures
        r@ == tc@,
{
    ToolCall {
        id: dup_string(&tc.id),
        call_type: dup_string(&tc.call_type),
        function: FunctionCall {
            name: dup_string(&tc.function.name),
            arguments: dup_string(&tc.function.arguments),
        },
    }
}

fn dup_tool_calls(tcs: &Vec<ToolCall>) -> (r: Vec<ToolCall>)
    ensures
        tc_views(r@) == tc_views(tcs@),
{
    let mut out: Vec<ToolCall> = Vec::new();
    let mut i: usize = 0;
    while i < tcs.len()
        invariant
            i <= tcs@.len(),
            tc_views(out@) == tc_views(tcs@).subrange(0, i as int),
        decreases tcs@.len() - i,
    {
        let copy = dup_tool_call(&tcs[i]);
        let ghost pre_out = out@;
        let ghost cv = copy@;
        out.push(copy);
        proof {
            assert(out@ == pre_out.push(copy));
            assert(tc_views(pre_out).len() == pre_out.len());
            assert(tc_views(tcs@).subrange(0, i as int).len() == i as int);
            assert(pre_out.len() == i as int);
            assert forall|m: int| 0 <= m < out@.len() implies tc_views(out@)[m] == tc_views(
                tcs@,
            ).subrange(0, i as int + 1)[m] by {
                if m < i as int {
                    assert(pre_out.push(copy)[m] == pre_out[m]);
                    assert(tc_views(pre_out)[m] == tc_views(tcs@).subrange(0, i as int)[m]);
                } else {
                    assert(pre_out.push(copy)[m] == copy);
                    assert(out@[m]@ == cv);
                }
            }
            assert(tc_views(out@) =~= tc_views(tcs@).subrange(0, i as int + 1));
        }
        i = i + 1;
    }
    proof {
        assert(tc_views(tcs@).subrange(0, tcs@.len() as int) =~= tc_views(tcs@));
    }
    out
}

/// Whether the batch's identifiers are pairwise distinct.
fn ids_distinct(tcs: &Vec<ToolCall>) -> (r: bool)
    ensures
        r == tc_ids_distinct(tc_views(tcs@)),
{
    let ghost v = tc_views(tcs@);
    let mut i: usize = 0;
    while i < tcs.len()
        invariant
            v == tc_views(tcs@),
            i <= tcs@.len(),
            forall|x: int, y: int| 0 <= x < y < tcs@.len() && x < i ==> v[x].id != v[y].id,
        decreases tcs@.len() - i,
    {
        let mut j: usize = i + 1;
        while j < tcs.len()
            invariant
                v == tc_views(tcs@),
                i < j || j == i + 1,
                i < tcs@.len(),
                i + 1 <= j <= tcs@.len(),
                forall|y: int| i < y < j ==> v[i as int].id != (#[trigger] v[y].id),
            decreases tcs@.len() - j,
        {
            if crate::strutil::str_eq(tcs[i].id.as_str(), tcs[j].id.as_str()) {
                proof {
                    assert(v[i as int].id == v[j as int].id);
                    assert(!tc_ids_distinct(v));
                }
                return false;
            }
            j = j + 1;
        }
        i = i + 1;
    }
    true
}

/// The sentinel returned when a chat run finished without producing a
/// reply: the ceiling was exhausted, or the model sent an empty turn.
pub fn completed_without_response() -> (s: String)
    ensures
        s@ == "Agent completed without response"@,
{
    String::from_str("Agent completed without response")
}

impl ChatRun {
    /// The state the run stands in.
    pub fn phase(&self) -> (p: Phase)
        ensures
            p == self@.phase,
    {
        self.phase
    }

    /// How many provider calls this run has made.
    pub fn iterations(&self) -> (n: u64)
        ensures
            n == self@.iterations,
    {
        self.iterations
    }

    /// The final reply, present only when the run is `Done` with content.
    pub fn reply(&self) -> (r: &Option<String>)
        ensures
            (r is Some <==> self@.reply is Some),
            r is Some ==> r->0@ == self@.reply->0,
    {
        &self.reply
    }

    /// The invocation to execute next.
    pub fn next_invocation(&self) -> (tc: &ToolCall)
        requires
            self@.pending.len() >= 1,
        ensures
            tc@ == self@.pending[0],
    {
        &self.pending[0]
    }

    /// How many invocations of the current batch still wait.
    pub fn pending_count(&self) -> (n: usize)
        ensures
            n == self@.pending.len(),
    {
        self.pending.len()
    }

    /// Aborts the run: the conversation is left as it stands.
    pub fn fail(&mut self)
        ensures
            final(self)@.phase == Phase::Aborted,
            final(self)@.iterations == old(self)@.iterations,
            final(self)@.pending == old(self)@.pending,
            final(self)@.reply == old(self)@.reply,
    {
        self.phase = Phase::Aborted;
    }
}

impl Agent {
    /// Whether the agent's conversation is well formed.
    pub open spec fn wf(&self) -> bool {
        conv_wf(self@.messages)
    }

    /// A fresh agent: its conversation holds exactly the System turn.
    pub fn new(system_prompt: String) -> (a: Agent)
        ensures
            a@.messages =~= seq![system_msg(system_prompt@)],
            a@.system_prompt == system_prompt@,
            a.wf(),
    {
        let first = Message {
            role: Role::System,
            content: dup_string(&system_prompt),
            tool_calls: None,
            tool_call_id: None,
        };
        let mut messages: Vec<Message> = Vec::new();
        messages.push(first);
        let a = Agent { messages, system_prompt };
        proof {
            assert(a@.messages =~= seq![system_msg(a.system_prompt@)]);
        }
        a
    }

    /// The conversation so far.
    pub fn history(&self) -> (h: &Vec<Message>)
        ensures
            msg_views(h@) == self@.messages,
    {
        &self.messages
    }

    /// Truncates the conversation back to its single System turn. The
    /// audit log is not touched.
    pub fn reset(&mut self)
        ensures
            final(self)@.messages =~= seq![system_msg(old(self)@.system_prompt)],
            final(self)@.system_prompt == old(self)@.system_prompt,
            final(self).wf(),
    {
        let first = Message {
            role: Role::System,
            content: dup_string(&self.system_prompt),
            tool_calls: None,
            tool_call_id: None,
        };
        let mut messages: Vec<Message> = Vec::new();
        messages.push(first);
        self.messages = messages;
        proof {
            assert(self@.messages =~= seq![system_msg(self.system_prompt@)]);
        }
    }

    /// Starts a chat run: appends the User turn and returns the run state
    /// together with the audit record for the message.
    pub fn begin_chat(&mut self, user_input: &str) -> (r: (ChatRun, Memory))
        requires
            old(self).wf(),
        ensures
            final(self)@.messages =~= old(self)@.messages + seq![user_msg(user_input@)],
            final(self)@.system_prompt == old(self)@.system_prompt,
            final(self).wf(),
            r.0@.phase == Phase::AwaitingModel,
            r.0@.iterations == 0,
            r.0@.pending =~= Seq::<ToolCallV>::empty(),
            r.0@.reply is None,
            run_wf(final(self)@.messages, r.0@),
            r.1.content@ == user_input@,
            r.1.memory_type == MemoryType::Chat,
            r.1.metadata@ == crate::codec::JsonVal::Obj(Seq::empty()),
    {
        let ghost pre = self@.messages;
        let msg = Message {
            role: Role::User,
            content: String::from_str(user_input),
            tool_calls: None,
            tool_call_id: None,
        };
        proof {
            lemma_conv_push(pre, msg@);
        }
        self.messages.push(msg);
        proof {
            assert(msg_views(self.messages@) =~= pre.push(user_msg(user_input@)));
            assert(pre.push(user_msg(user_input@)) =~= pre + seq![user_msg(user_input@)]);
        }
        let run = ChatRun { iterations: 0, phase: Phase::AwaitingModel, pending: Vec::new(), reply: None };
        let audit = Memory::new(user_input, MemoryType::Chat);
        proof {
            assert(run@.pending =~= Seq::<ToolCallV>::empty());
        }
        (run, audit)
    }

    /// Folds one model turn into the run, as the loop's step from
    /// `AwaitingModel`: a non-empty batch of invocations with distinct
    /// identifiers opens `ExecutingTools`; a batch with colliding
    /// identifiers aborts the run as a protocol error; plain content ends
    /// the run with that reply and its audit record; an empty turn ends the
    /// run with no reply.
    pub fn on_model_turn(&mut self, run: &mut ChatRun, turn: ChatResponse) -> (r: Result<
        Option<Memory>,
        AgentError,
    >)
        requires
            old(self).wf(),
            old(run)@.phase == Phase::AwaitingModel,
            run_wf(old(self)@.messages, old(run)@),
        ensures
            final(self)@.system_prompt == old(self)@.system_prompt,
            final(self).wf(),
            run_wf(final(self)@.messages, final(run)@),
            final(run)@.iterations <= MAX_ITERATIONS,
            ({
                let tcs = turn@.tool_calls;
                let has_tools = tcs is Some && tcs->0.len() > 0;
                if has_tools && !tc_ids_distinct(tcs->0) {
                    &&& final(self)@.messages == old(self)@.messages
                    &&& final(run)@.phase == Phase::Aborted
                    &&& r is Err
                    &&& r->Err_0 is ProviderProtocolError
                } else if has_tools {
                    &&& final(self)@.messages =~= old(self)@.messages + seq![
                        assistant_msg(turn@.content, tcs),
                    ]
                    &&& final(run)@.phase == Phase::ExecutingTools
                    &&& final(run)@.pending == tcs->0
                    &&& final(run)@.iterations == old(run)@.iterations + 1
                    &&& r is Ok && r->Ok_0 is None
                } else if turn@.content.len() > 0 {
                    &&& final(self)@.messages =~= old(self)@.messages + seq![
                        assistant_msg(turn@.content, None),
                    ]
                    &&& final(run)@.phase == Phase::Done
                    &&& final(run)@.reply == Some(turn@.content)
                    &&& final(run)@.iterations == old(run)@.iterations + 1
                    &&& r is Ok && r->Ok_0 is Some && r->Ok_0->0.content@ == turn@.content
                        && r->Ok_0->0.memory_type == MemoryType::Chat
                } else {
                    &&& final(self)@.messages == old(self)@.messages
                    &&& final(run)@.phase == Phase::Done
                    &&& final(run)@.reply is None
                    &&& final(run)@.iterations == old(run)@.iterations + 1
                    &&& r is Ok && r->Ok_0 is None
                }
            }),
    {
        let ghost pre = self@.messages;
        match turn.tool_calls {
            Some(tcs) => {
                if tcs.len() > 0 {
                    if !ids_distinct(&tcs) {
                        run.phase = Phase::Aborted;
                        return Err(
                            AgentError::ProviderProtocolError(
                                String::from_str("duplicate tool invocation ids in one batch"),
                            ),
                        );
                    }
                    let pending = dup_tool_calls(&tcs);
                    let msg = Message {
                        role: Role::Assistant,
                        content: turn.content,
                        tool_calls: Some(tcs),
                        tool_call_id: None,
                    };
                    proof {
                        lemma_conv_push(pre, msg@);
                    }
                    self.messages.push(msg);
                    run.iterations = run.iterations + 1;
                    run.phase = Phase::ExecutingTools;
                    run.pending = pending;
                    proof {
                        let post = msg_views(self.messages@);
                        assert(post =~= pre.push(msg@));
                        assert(post =~= pre + seq![msg@]);
                        lemma_trailing_tools_push(pre, msg@);
                        assert(trailing_tools(post) == 0);
                        assert(post[post.len() - 1] == msg@);
                        assert(run@.pending =~= msg@.tool_calls->0.skip(0));
                    }
                    Ok(None)
                } else {
                    self.finish_turn(run, turn.content)
                }
            },
            None => self.finish_turn(run, turn.content),
        }
    }

    /// Ends a run on a model turn that carried no invocations.
    fn finish_turn(&mut self, run: &mut ChatRun, content: String) -> (r: Result<
        Option<Memory>,
        AgentError,
    >)
        requires
            old(self).wf(),
            old(run)@.phase == Phase::AwaitingModel,
            run_wf(old(self)@.messages, old(run)@),
        ensures
            final(self)@.system_prompt == old(self)@.system_prompt,
            final(self).wf(),
            run_wf(final(self)@.messages, final(run)@),
            final(run)@.iterations == old(run)@.iterations + 1,
            final(run)@.phase == Phase::Done,
            final(run)@.pending == old(run)@.pending,
            (if content@.len() > 0 {
                &&& final(self)@.messages =~= old(self)@.messages + seq![
                    assistant_msg(content@, None),
                ]
                &&& final(run)@.reply == Some(content@)
                &&& r is Ok && r->Ok_0 is Some && r->Ok_0->0.content@ == content@
                    && r->Ok_0->0.memory_type == MemoryType::Chat
            } else {
                &&& final(self)@.messages == old(self)@.messages
                &&& final(run)@.reply is None
                &&& r is Ok && r->Ok_0 is None
            }),
    {
        let ghost pre = self@.messages;
        run.iterations = run.iterations + 1;
        run.phase = Phase::Done;
        if content.unicode_len() > 0 {
            let audit = Memory::new(content.as_str(), MemoryType::Chat);
            let msg = Message {
                role: Role::Assistant,
                content: dup_string(&content),
                tool_calls: None,
                tool_call_id: None,
            };
            proof {
                lemma_conv_push(pre, msg@);
            }
            self.messages.push(msg);
            run.reply = Some(content);
            proof {
                assert(msg_views(self.messages@) =~= pre.push(msg@));
                assert(msg_views(self.messages@) =~= pre + seq![assistant_msg(msg@.content, None)]);
            }
            Ok(Some(audit))
        } else {
            run.reply = None;
            Ok(None)
        }
    }

    /// Folds the result of the next pending invocation into the
    /// conversation: appends the correlated Tool turn, and either stays in
    /// `ExecutingTools`, returns to `AwaitingModel` for the model to react,
    /// or ends at the ceiling with no reply. Returns the audit record of
    /// the invocation.
    pub fn on_tool_result(&mut self, run: &mut ChatRun, result: &ToolResult) -> (m: Memory)
        requires
            old(self).wf(),
            old(run)@.phase == Phase::ExecutingTools,
            run_wf(old(self)@.messages, old(run)@),
        ensures
            final(self)@.system_prompt == old(self)@.system_prompt,
            final(self).wf(),
            run_wf(final(self)@.messages, final(run)@),
            final(self)@.messages =~= old(self)@.messages + seq![
                tool_msg(result@.output, old(run)@.pending[0].id),
            ],
            final(run)@.pending == old(run)@.pending.drop_first(),
            final(run)@.iterations == old(run)@.iterations,
            final(run)@.reply == old(run)@.reply,
            final(run)@.phase == (if old(run)@.pending.len() > 1 {
                Phase::ExecutingTools
            } else if old(run)@.iterations < MAX_ITERATIONS {
                Phase::AwaitingModel
            } else {
                Phase::Done
            }),
            m.memory_type == MemoryType::Command,
            m.content@ == old(run)@.pending[0].function.arguments,
            m.metadata@ == crate::codec::JsonVal::Obj(
                seq![
                    ("tool"@, crate::codec::JsonVal::Str(old(run)@.pending[0].function.name)),
                    ("result"@, crate::codec::JsonVal::Str(result@.output)),
                ],
            ),
    {
        let ghost pre = self@.messages;
        let ghost t = trailing_tools(pre);
        let ghost a = pre.len() - 1 - t;
        proof {
            lemma_trailing_tools_props(pre);
        }
        let tc = self.pending_head(run);
        let audit = Memory::new(tc.function.arguments.as_str(), MemoryType::Command).with_metadata(
            crate::tools::command_metadata(&tc.function.name, &result.output),
        );
        let msg = Message {
            role: Role::Tool,
            content: dup_string(&result.output),
            tool_calls: None,
            tool_call_id: Some(dup_string(&tc.id)),
        };
        proof {
            assert(old(run)@.pending[0] == pre[a].tool_calls->0.skip(t)[0]);
            assert(pre[a].tool_calls->0.skip(t)[0] == pre[a].tool_calls->0[t]);
            lemma_conv_push_tool(pre, msg@, a, t);
        }
        self.messages.push(msg);
        let done = run.pending.remove(0);
        proof {
            let post = msg_views(self.messages@);
            assert(post =~= pre.push(msg@));
            assert(post =~= pre + seq![tool_msg(result@.output, old(run)@.pending[0].id)]);
            lemma_trailing_tools_push(pre, msg@);
            assert(trailing_tools(post) == t + 1);
            assert(tc_views(run.pending@) =~= old(run)@.pending.drop_first());
            assert(post[a] == pre[a]);
            assert(old(run)@.pending.drop_first() =~= pre[a].tool_calls->0.skip(t + 1));
        }
        if run.pending.len() > 0 {
            // more invocations of this batch wait
        } else if run.iterations < MAX_ITERATIONS {
            run.phase = Phase::AwaitingModel;
        } else {
            run.phase = Phase::Done;
        }
        audit
    }

    fn pending_head<'a>(&self, run: &'a ChatRun) -> (tc: &'a ToolCall)
        requires
            run@.pending.len() >= 1,
        ensures
            tc@ == run@.pending[0],
    {
        &run.pending[0]
    }
}

} // verus!
