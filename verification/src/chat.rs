//! The chat completion state machine and tool-call governance.
//!
//! One request drives up to five model calls. Each assistant answer either
//! finishes the request, or carries tool calls: every call is governed by
//! its effective policy — blocked calls get a synthetic refusal message,
//! auto calls are executed (by the caller, through the MCP federation) and
//! their outputs merged back in call order, and calls that need confirmation
//! suspend the whole round into a confirm session. The machine here holds
//! the evolving payload and the token accounting; the model and tool calls
//! themselves are the caller's I/O.

use vstd::prelude::*;

use crate::mcp::{McpTool, McpToolView};
use crate::strutil::str_eq;
use crate::tokens::{bpe_token_count, concat_contents, TokenCounter};

verus! {

/// One tool invocation the assistant asked for; `arguments` is raw JSON
/// text.
#[derive(Debug)]
pub struct ToolCall {
    pub id: String,
    pub name: String,
    pub arguments: String,
}

pub struct ToolCallView {
    pub id: Seq<char>,
    pub name: Seq<char>,
    pub arguments: Seq<char>,
}

impl View for ToolCall {
    type V = ToolCallView;

    open spec fn view(&self) -> ToolCallView {
        ToolCallView { id: self.id@, name: self.name@, arguments: self.arguments@ }
    }
}

impl DeepView for ToolCall {
    type V = ToolCallView;

    open spec fn deep_view(&self) -> ToolCallView {
        self.view()
    }
}

impl Clone for ToolCall {
    fn clone(&self) -> (res: Self)
        ensures
            res@ == self@,
    {
        ToolCall {
            id: self.id.clone(),
            name: self.name.clone(),
            arguments: self.arguments.clone(),
        }
    }
}

/// One chat message in the OpenAI-compatible shape, reduced to what the
/// engine reads and writes.
#[derive(Debug)]
pub struct ChatMessage {
    pub role: String,
    pub content: Option<String>,
    pub tool_calls: Vec<ToolCall>,
    pub tool_call_id: Option<String>,
    pub name: Option<String>,
}

pub struct ChatMessageView {
    pub role: Seq<char>,
    pub content: Option<Seq<char>>,
    pub tool_calls: Seq<ToolCallView>,
    pub tool_call_id: Option<Seq<char>>,
    pub name: Option<Seq<char>>,
}

impl View for ChatMessage {
    type V = ChatMessageView;

    open spec fn view(&self) -> ChatMessageView {
        ChatMessageView {
            role: self.role@,
            content: self.content.deep_view(),
            tool_calls: self.tool_calls.deep_view(),
            tool_call_id: self.tool_call_id.deep_view(),
            name: self.name.deep_view(),
        }
    }
}

impl DeepView for ChatMessage {
    type V = ChatMessageView;

    open spec fn deep_view(&self) -> ChatMessageView {
        self.view()
    }
}

impl Clone for ChatMessage {
    fn clone(&self) -> (res: Self)
        ensures
            res@ == self@,
    {
        let tool_calls = clone_calls(&self.tool_calls);
        ChatMessage {
            role: self.role.clone(),
            content: match &self.content {
                Some(c) => Some(c.clone()),
                None => None,
            },
            tool_calls,
            tool_call_id: match &self.tool_call_id {
                Some(c) => Some(c.clone()),
                None => None,
            },
            name: match &self.name {
                Some(c) => Some(c.clone()),
                None => None,
            },
        }
    }
}

/// Copy a list of tool calls, contents for contents.
pub fn clone_calls(v: &Vec<ToolCall>) -> (r: Vec<ToolCall>)
    ensures
        r.deep_view() == v.deep_view(),
{
    let r = v.clone();
    proof {
        assert forall|i: int| 0 <= i < r@.len() implies r.deep_view()[i] == v.deep_view()[i] by {
            assert(cloned::<ToolCall>(v@[i], r@[i]));
            assert(r.deep_view()[i] == r@[i].deep_view());
            assert(v.deep_view()[i] == v@[i].deep_view());
        }
        assert(r.deep_view() =~= v.deep_view());
    }
    r
}

/// Copy a list of messages, contents for contents.
pub fn clone_messages(v: &Vec<ChatMessage>) -> (r: Vec<ChatMessage>)
    ensures
        r.deep_view() == v.deep_view(),
{
    let r = v.clone();
    proof {
        assert forall|i: int| 0 <= i < r@.len() implies r.deep_view()[i] == v.deep_view()[i] by {
            assert(cloned::<ChatMessage>(v@[i], r@[i]));
            assert(r.deep_view()[i] == r@[i].deep_view());
            assert(v.deep_view()[i] == v@[i].deep_view());
        }
        assert(r.deep_view() =~= v.deep_view());
    }
    r
}

/// Copy a list of tool descriptors, contents for contents.
pub fn clone_tools(v: &Vec<McpTool>) -> (r: Vec<McpTool>)
    ensures
        r.deep_view() == v.deep_view(),
{
    let r = v.clone();
    proof {
        assert forall|i: int| 0 <= i < r@.len() implies r.deep_view()[i] == v.deep_view()[i] by {
            assert(cloned::<McpTool>(v@[i], r@[i]));
            assert(r.deep_view()[i] == r@[i].deep_view());
            assert(v.deep_view()[i] == v@[i].deep_view());
        }
        assert(r.deep_view() =~= v.deep_view());
    }
    r
}

/// Append one message, contents preserved.
pub fn push_message(out: &mut Vec<ChatMessage>, m: ChatMessage)
    ensures
        final(out).deep_view() == old(out).deep_view().push(m@),
{
    let ghost d0 = out.deep_view();
    let ghost ov = out@;
    out.push(m);
    proof {
        assert forall|l: int|
            0 <= l < out@.len() implies out.deep_view()[l] == d0.push(out@[ov.len() as int]@)[
            l] by {
            assert(out.deep_view()[l] == out@[l].deep_view());
            if l < ov.len() {
                assert(out@[l] == ov[l]);
                assert(d0[l] == ov[l].deep_view());
            }
        }
        assert(out.deep_view() =~= d0.push(out@[ov.len() as int]@));
    }
}

/// The OpenAI-compatible request body, reduced to what the engine reads.
#[derive(Debug)]
pub struct ChatPayload {
    pub model: String,
    pub messages: Vec<ChatMessage>,
    pub tools: Vec<McpTool>,
    pub stream: bool,
    pub run_async: bool,
}

pub struct ChatPayloadView {
    pub model: Seq<char>,
    pub messages: Seq<ChatMessageView>,
    pub tools: Seq<McpToolView>,
    pub stream: bool,
    pub run_async: bool,
}

impl View for ChatPayload {
    type V = ChatPayloadView;

    open spec fn view(&self) -> ChatPayloadView {
        ChatPayloadView {
            model: self.model@,
            messages: self.messages.deep_view(),
            tools: self.tools.deep_view(),
            stream: self.stream,
            run_async: self.run_async,
        }
    }
}

impl Clone for ChatPayload {
    fn clone(&self) -> (res: Self)
        ensures
            res@ == self@,
    {
        ChatPayload {
            model: self.model.clone(),
            messages: clone_messages(&self.messages),
            tools: clone_tools(&self.tools),
            stream: self.stream,
            run_async: self.run_async,
        }
    }
}

/// What governance says about one tool: run it, ask the user first, or
/// refuse it.
#[derive(Clone, Copy, Debug, PartialEq, Eq, Structural)]
pub enum ToolPolicy {
    Auto,
    Confirm,
    Block,
}

impl ToolPolicy {
    /// The policy a stored row's text stands for; anything unknown reads as
    /// Auto.
    pub open spec fn spec_from_str(s: Seq<char>) -> ToolPolicy {
        if s == "block"@ {
            ToolPolicy::Block
        } else if s == "confirm"@ {
            ToolPolicy::Confirm
        } else {
            ToolPolicy::Auto
        }
    }

    pub fn from_str(s: &str) -> (p: ToolPolicy)
        ensures
            p == ToolPolicy::spec_from_str(s@),
    {
        if str_eq(s, "block") {
            ToolPolicy::Block
        } else if str_eq(s, "confirm") {
            ToolPolicy::Confirm
        } else {
            ToolPolicy::Auto
        }
    }
}

/// The effective policy of a tool for a principal: the principal-scoped row
/// if there is one, else the global row, else Auto.
pub fn effective_policy(global: Option<ToolPolicy>, scoped: Option<ToolPolicy>) -> (p: ToolPolicy)
    ensures
        p == match scoped {
            Some(sp) => sp,
            None => match global {
                Some(g) => g,
                None => ToolPolicy::Auto,
            },
        },
{
    match scoped {
        Some(sp) => sp,
        None => match global {
            Some(g) => g,
            None => ToolPolicy::Auto,
        },
    }
}

/// The calls among `calls` whose policy is `want`, in order.
pub open spec fn select_calls(
    calls: Seq<ToolCallView>,
    pols: Seq<ToolPolicy>,
    want: ToolPolicy,
) -> Seq<ToolCallView>
    decreases calls.len(),
{
    if calls.len() == 0 {
        Seq::empty()
    } else {
        let rest = select_calls(calls.drop_first(), pols.drop_first(), want);
        if pols[0] == want {
            seq![calls[0]] + rest
        } else {
            rest
        }
    }
}

/// Selecting over one more call appends it exactly when its policy matches.
proof fn lemma_select_snoc(
    calls: Seq<ToolCallView>,
    pols: Seq<ToolPolicy>,
    want: ToolPolicy,
    k: int,
)
    requires
        0 <= k < calls.len(),
        pols.len() >= calls.len(),
    ensures
        select_calls(calls.take(k + 1), pols.take(k + 1), want) == if pols[k] == want {
            select_calls(calls.take(k), pols.take(k), want).push(calls[k])
        } else {
            select_calls(calls.take(k), pols.take(k), want)
        },
    decreases k,
{
    if k == 0 {
        assert(calls.take(1)[0] == calls[0]);
        assert(pols.take(1)[0] == pols[0]);
        assert(calls.take(1).drop_first() =~= Seq::<ToolCallView>::empty());
        assert(pols.take(1).drop_first() =~= Seq::<ToolPolicy>::empty());
        assert(calls.take(0) =~= Seq::<ToolCallView>::empty());
        assert(select_calls(
            Seq::<ToolCallView>::empty(),
            Seq::<ToolPolicy>::empty(),
            want,
        ) =~= Seq::<ToolCallView>::empty());
        if pols[0] == want {
            assert(select_calls(calls.take(1), pols.take(1), want) =~= select_calls(
                calls.take(0),
                pols.take(0),
                want,
            ).push(calls[0]));
        } else {
            assert(select_calls(calls.take(1), pols.take(1), want) =~= select_calls(
                calls.take(0),
                pols.take(0),
                want,
            ));
        }
    } else {
        lemma_select_snoc(calls.drop_first(), pols.drop_first(), want, k - 1);
        assert(calls.take(k + 1)[0] == calls[0]);
        assert(calls.take(k + 1).drop_first() =~= calls.drop_first().take(k));
        assert(pols.take(k + 1).drop_first() =~= pols.drop_first().take(k));
        assert(calls.take(k)[0] == calls[0]);
        assert(calls.take(k).drop_first() =~= calls.drop_first().take(k - 1));
        assert(pols.take(k).drop_first() =~= pols.drop_first().take(k - 1));
        assert(calls.drop_first()[k - 1] == calls[k]);
        assert(pols.drop_first()[k - 1] == pols[k]);
        assert(pols.take(k + 1)[0] == pols[0]);
        assert(pols.take(k)[0] == pols[0]);
        if pols[0] == want {
            if pols[k] == want {
                assert(select_calls(calls.take(k + 1), pols.take(k + 1), want) =~= select_calls(
                    calls.take(k),
                    pols.take(k),
                    want,
                ).push(calls[k]));
            }
        }
    }
}

/// The calls of each policy among `calls`, in order.
pub fn select_by_policy(calls: &Vec<ToolCall>, pols: &Vec<ToolPolicy>, want: ToolPolicy) -> (r: Vec<
    ToolCall,
>)
    requires
        calls@.len() == pols@.len(),
    ensures
        r.deep_view() == select_calls(calls.deep_view(), pols@, want),
{
    let n = calls.len();
    let mut r: Vec<ToolCall> = Vec::new();
    let mut i: usize = 0;
    proof {
        assert(calls.deep_view().take(0) =~= Seq::<ToolCallView>::empty());
        assert(pols@.take(0) =~= Seq::<ToolPolicy>::empty());
        assert(r.deep_view() =~= Seq::<ToolCallView>::empty());
    }
    while i < n
        invariant
            i <= n,
            n == calls@.len(),
            calls@.len() == pols@.len(),
            r.deep_view() == select_calls(
                calls.deep_view().take(i as int),
                pols@.take(i as int),
                want,
            ),
        decreases n - i,
    {
        let ghost pre = r.deep_view();
        if policy_eq(pols[i], want) {
            let c = ToolCall {
                id: calls[i].id.clone(),
                name: calls[i].name.clone(),
                arguments: calls[i].arguments.clone(),
            };
            let ghost d0 = r.deep_view();
            let ghost ov = r@;
            r.push(c);
            proof {
                assert forall|l: int|
                    0 <= l < r@.len() implies r.deep_view()[l] == d0.push(calls.deep_view()[
                i as int])[l] by {
                    assert(r.deep_view()[l] == r@[l].deep_view());
                    if l < ov.len() {
                        assert(r@[l] == ov[l]);
                        assert(d0[l] == ov[l].deep_view());
                    } else {
                        assert(calls.deep_view()[i as int] == calls@[i as int].deep_view());
                    }
                }
                assert(r.deep_view() =~= d0.push(calls.deep_view()[i as int]));
            }
        }
        proof {
            lemma_select_snoc(calls.deep_view(), pols@, want, i as int);
            assert(calls.deep_view()[i as int] == calls@[i as int].deep_view());
        }
        i += 1;
    }
    proof {
        assert(calls.deep_view().take(n as int) =~= calls.deep_view());
        assert(pols@.take(n as int) =~= pols@);
    }
    r
}

/// Executable equality of two policies.
fn policy_eq(a: ToolPolicy, b: ToolPolicy) -> (r: bool)
    ensures
        r == (a == b),
{
    a == b
}

/// The synthetic tool-result message the model sees for one call.
pub open spec fn tool_msg_view(call: ToolCallView, content: Seq<char>) -> ChatMessageView {
    ChatMessageView {
        role: "tool"@,
        content: Some(content),
        tool_calls: Seq::empty(),
        tool_call_id: Some(call.id),
        name: Some(call.name),
    }
}

/// Build the synthetic tool-result message for one call.
pub fn tool_message(call: &ToolCall, content: String) -> (m: ChatMessage)
    ensures
        m@ == tool_msg_view(call@, content@),
{
    let m = ChatMessage {
        role: String::from_str("tool"),
        content: Some(content),
        tool_calls: Vec::new(),
        tool_call_id: Some(call.id.clone()),
        name: Some(call.name.clone()),
    };
    proof {
        assert(m@.tool_calls =~= Seq::<ToolCallView>::empty());
    }
    m
}

/// The content a blocked call reports back to the model.
pub fn blocked_content() -> (s: String)
    ensures
        s@ == "blocked by policy"@,
{
    String::from_str("blocked by policy")
}

/// One round of tool messages in call order: blocked calls report the
/// refusal, auto calls report the next output, confirm calls are left for
/// the session.
pub open spec fn round_msgs(
    calls: Seq<ToolCallView>,
    pols: Seq<ToolPolicy>,
    outs: Seq<Seq<char>>,
    refusal: Seq<char>,
) -> Seq<ChatMessageView>
    decreases calls.len(),
{
    if calls.len() == 0 {
        Seq::empty()
    } else {
        match pols[0] {
            ToolPolicy::Block => seq![tool_msg_view(calls[0], refusal)] + round_msgs(
                calls.drop_first(),
                pols.drop_first(),
                outs,
                refusal,
            ),
            ToolPolicy::Auto => seq![
                tool_msg_view(calls[0], if outs.len() > 0 { outs[0] } else { Seq::empty() }),
            ] + round_msgs(calls.drop_first(), pols.drop_first(), outs.drop_first(), refusal),
            ToolPolicy::Confirm => round_msgs(calls.drop_first(), pols.drop_first(), outs, refusal),
        }
    }
}

/// How many of the policies are Auto: how many outputs a round consumes.
pub open spec fn count_autos(pols: Seq<ToolPolicy>) -> nat
    decreases pols.len(),
{
    if pols.len() == 0 {
        0
    } else {
        count_autos(pols.drop_first()) + (if pols[0] == ToolPolicy::Auto {
            1nat
        } else {
            0nat
        })
    }
}

/// Put one message at the front, contents preserved.
fn insert_front_message(v: &mut Vec<ChatMessage>, m: ChatMessage)
    ensures
        final(v).deep_view() == seq![m@] + old(v).deep_view(),
{
    let ghost d0 = v.deep_view();
    let ghost ov = v@;
    let ghost mv = m@;
    v.insert(0, m);
    proof {
        assert forall|l: int| 0 <= l < v@.len() implies v.deep_view()[l] == (seq![mv] + d0)[l] by {
            assert(v.deep_view()[l] == v@[l].deep_view());
            if l == 0 {
            } else {
                assert(v@[l] == ov[l - 1]);
                assert(d0[l - 1] == ov[l - 1].deep_view());
            }
        }
        assert(v.deep_view() =~= seq![mv] + d0);
    }
}

/// A round consumes exactly one output per Auto call: the auto calls of a
/// round and the outputs it needs are equal in number.
pub proof fn lemma_auto_count(calls: Seq<ToolCallView>, pols: Seq<ToolPolicy>)
    requires
        calls.len() == pols.len(),
    ensures
        select_calls(calls, pols, ToolPolicy::Auto).len() == count_autos(pols),
    decreases calls.len(),
{
    if calls.len() > 0 {
        lemma_auto_count(calls.drop_first(), pols.drop_first());
    }
}

/// Build one round of tool messages in call order, consuming the auto
/// outputs in order.
pub fn build_round_msgs(
    calls: &Vec<ToolCall>,
    pols: &Vec<ToolPolicy>,
    outs: Vec<String>,
    refusal: &String,
) -> (r: Vec<ChatMessage>)
    requires
        calls@.len() == pols@.len(),
        outs@.len() == count_autos(pols@),
    ensures
        r.deep_view() == round_msgs(calls.deep_view(), pols@, outs.deep_view(), refusal@),
{
    proof {
        assert(calls.deep_view().skip(0) =~= calls.deep_view());
        assert(pols@.skip(0) =~= pols@);
    }
    build_round_rec(calls, pols, outs, refusal, 0)
}

/// Recursive worker for `build_round_msgs`, walking the calls from `k`.
fn build_round_rec(
    calls: &Vec<ToolCall>,
    pols: &Vec<ToolPolicy>,
    outs: Vec<String>,
    refusal: &String,
    k: usize,
) -> (r: Vec<ChatMessage>)
    requires
        calls@.len() == pols@.len(),
        k <= calls@.len(),
        outs@.len() == count_autos(pols@.skip(k as int)),
    ensures
        r.deep_view() == round_msgs(
            calls.deep_view().skip(k as int),
            pols@.skip(k as int),
            outs.deep_view(),
            refusal@,
        ),
    decreases calls@.len() - k,
{
    let ghost cs = calls.deep_view().skip(k as int);
    let ghost ps = pols@.skip(k as int);
    if k == calls.len() {
        let r: Vec<ChatMessage> = Vec::new();
        proof {
            assert(cs =~= Seq::<ToolCallView>::empty());
            assert(r.deep_view() =~= Seq::<ChatMessageView>::empty());
        }
        return r;
    }
    proof {
        assert(cs[0] == calls.deep_view()[k as int]);
        assert(calls.deep_view()[k as int] == calls@[k as int].deep_view());
        assert(ps[0] == pols@[k as int]);
        assert(cs.drop_first() =~= calls.deep_view().skip(k as int + 1));
        assert(ps.drop_first() =~= pols@.skip(k as int + 1));
    }
    match pols[k] {
        ToolPolicy::Block => {
            let m = tool_message(&calls[k], refusal.clone());
            let mut rest = build_round_rec(calls, pols, outs, refusal, k + 1);
            insert_front_message(&mut rest, m);
            proof {
                assert(rest.deep_view() =~= seq![tool_msg_view(cs[0], refusal@)] + round_msgs(
                    cs.drop_first(),
                    ps.drop_first(),
                    outs.deep_view(),
                    refusal@,
                ));
            }
            rest
        },
        ToolPolicy::Confirm => {
            build_round_rec(calls, pols, outs, refusal, k + 1)
        },
        ToolPolicy::Auto => {
            let ghost od = outs.deep_view();
            let mut outs2 = outs;
            proof {
                assert(count_autos(ps) == count_autos(ps.drop_first()) + 1);
            }
            let out0 = outs2.remove(0);
            proof {
                assert(out0@ == od[0]);
                assert forall|l: int|
                    0 <= l < outs2@.len() implies outs2.deep_view()[l] == od.drop_first()[l] by {
                    assert(outs2.deep_view()[l] == outs2@[l]@);
                }
                assert(outs2.deep_view() =~= od.drop_first());
            }
            let m = tool_message(&calls[k], out0);
            let mut rest = build_round_rec(calls, pols, outs2, refusal, k + 1);
            insert_front_message(&mut rest, m);
            proof {
                assert(od.len() > 0);
                assert(rest.deep_view() =~= seq![tool_msg_view(cs[0], od[0])] + round_msgs(
                    cs.drop_first(),
                    ps.drop_first(),
                    od.drop_first(),
                    refusal@,
                ));
            }
            rest
        },
    }
}


/// Put the federated tool descriptors on the payload, so the model sees
/// every tool the gateway can execute.
pub fn inject_tools(payload: &mut ChatPayload, tools: Vec<McpTool>)
    ensures
        final(payload)@.tools == tools.deep_view(),
        final(payload)@.model == old(payload)@.model,
        final(payload)@.messages == old(payload)@.messages,
        final(payload)@.stream == old(payload)@.stream,
        final(payload)@.run_async == old(payload)@.run_async,
{
    payload.tools = tools;
}

/// The iteration ceiling: at most this many model calls per request.
pub const MAX_ITERATIONS: u32 = 5;

/// Whether any call of the round needs user confirmation.
pub open spec fn has_confirm(pols: Seq<ToolPolicy>) -> bool {
    exists|i: int| 0 <= i < pols.len() && pols[i] == ToolPolicy::Confirm
}

/// Whether any policy in the list is Confirm.
pub fn any_confirm(pols: &Vec<ToolPolicy>) -> (r: bool)
    ensures
        r == has_confirm(pols@),
{
    let n = pols.len();
    let mut i: usize = 0;
    while i < n
        invariant
            i <= n,
            n == pols@.len(),
            forall|j: int| 0 <= j < i ==> pols@[j] != ToolPolicy::Confirm,
        decreases n - i,
    {
        if policy_eq(pols[i], ToolPolicy::Confirm) {
            return true;
        }
        i += 1;
    }
    false
}

/// Append a whole round of messages, contents preserved.
pub fn append_messages(out: &mut Vec<ChatMessage>, mut round: Vec<ChatMessage>)
    ensures
        final(out).deep_view() == old(out).deep_view() + round.deep_view(),
{
    let ghost d0 = out.deep_view();
    let ghost ov = out@;
    let ghost rv = round@;
    let ghost rd = round.deep_view();
    out.append(&mut round);
    proof {
        assert(out@ == ov + rv);
        assert forall|l: int| 0 <= l < out@.len() implies out.deep_view()[l] == (d0 + rd)[l] by {
            assert(out.deep_view()[l] == out@[l].deep_view());
            if l < ov.len() {
                assert(out@[l] == ov[l]);
                assert(d0[l] == ov[l].deep_view());
            } else {
                assert(out@[l] == rv[l - ov.len()]);
                assert(rd[l - ov.len()] == rv[l - ov.len()].deep_view());
            }
        }
        assert(out.deep_view() =~= d0 + rd);
    }
}

/// What the machine asks of its driver after one assistant answer.
#[derive(Debug)]
pub enum ChatStep {
    /// Execute these calls through the MCP federation, then hand the
    /// outputs to `on_tool_results`.
    ExecuteTools { auto_calls: Vec<ToolCall> },
    /// Persist the session payload and suspend: these calls await the user.
    AwaitConfirmation { pending: Vec<ToolCall>, session_payload: ChatPayload },
    /// The answer is final; account and return it.
    Finished,
}

/// The chat completion state machine: the evolving payload, the model-call
/// count, and the token accounting of the request.
#[derive(Debug)]
pub struct ChatMachine {
    pub payload: ChatPayload,
    pub iteration: u32,
    pub req_tokens: u64,
    pub res_tokens: u64,
}

impl ChatMachine {
    pub fn new(payload: ChatPayload) -> (m: Self)
        ensures
            m.payload == payload,
            m.iteration == 0,
            m.req_tokens == 0,
            m.res_tokens == 0,
    {
        ChatMachine { payload, iteration: 0, req_tokens: 0, res_tokens: 0 }
    }

    /// Whether another model call is still within the iteration ceiling.
    pub fn can_call(&self) -> (r: bool)
        ensures
            r == (self.iteration < MAX_ITERATIONS),
    {
        self.iteration < MAX_ITERATIONS
    }

    /// Digest one assistant answer. The request tokens of the messages just
    /// sent are metered (saturating); an answer without tool calls finishes
    /// the request and meters its content as response tokens; an answer
    /// whose calls include one needing confirmation suspends the round with
    /// the session payload (the conversation plus this answer); otherwise
    /// the answer joins the conversation and the auto calls are handed out
    /// for execution.
    pub fn on_model_response(&mut self, assistant: ChatMessage, policies: &Vec<ToolPolicy>) -> (
        step: ChatStep)
        requires
            old(self).iteration < MAX_ITERATIONS,
            policies@.len() == assistant.tool_calls@.len(),
        ensures
            final(self).iteration == old(self).iteration + 1,
            final(self).payload@.model == old(self).payload@.model,
            final(self).payload@.tools == old(self).payload@.tools,
            final(self).payload@.stream == old(self).payload@.stream,
            final(self).payload@.run_async == old(self).payload@.run_async,
            final(self).req_tokens == if old(self).req_tokens + bpe_token_count(
                concat_contents(old(self).payload@.messages),
            ) <= u64::MAX {
                old(self).req_tokens + bpe_token_count(concat_contents(old(self).payload@.messages))
            } else {
                u64::MAX as int
            },
            ({
                let calls = assistant@.tool_calls;
                let pols = policies@;
                if calls.len() == 0 {
                    &&& step is Finished
                    &&& final(self).payload@.messages == old(self).payload@.messages
                    &&& final(self).res_tokens == match assistant@.content {
                        Some(c) => if old(self).res_tokens + bpe_token_count(c) <= u64::MAX {
                            old(self).res_tokens + bpe_token_count(c)
                        } else {
                            u64::MAX as int
                        },
                        None => old(self).res_tokens as int,
                    }
                } else if has_confirm(pols) {
                    &&& step matches ChatStep::AwaitConfirmation { pending, session_payload }
                        && pending.deep_view() == select_calls(calls, pols, ToolPolicy::Confirm)
                        && session_payload@.messages == old(self).payload@.messages.push(
                        assistant@,
                    ) && session_payload@.model == old(self).payload@.model
                        && session_payload@.tools == old(self).payload@.tools
                        && session_payload@.stream == old(self).payload@.stream
                        && session_payload@.run_async == old(self).payload@.run_async
                    &&& final(self).payload@.messages == old(self).payload@.messages
                    &&& final(self).res_tokens == old(self).res_tokens
                } else {
                    &&& step matches ChatStep::ExecuteTools { auto_calls } && auto_calls.deep_view()
                        == select_calls(calls, pols, ToolPolicy::Auto)
                    &&& final(self).payload@.messages == old(self).payload@.messages.push(
                        assistant@,
                    )
                    &&& final(self).res_tokens == old(self).res_tokens
                }
            }),
    {
        let req_add = TokenCounter::count_messages_tokens(&self.payload.messages);
        self.req_tokens = crate::tokens::add_sat_u64(self.req_tokens, req_add as u64);
        self.iteration = self.iteration + 1;
        if assistant.tool_calls.len() == 0 {
            match &assistant.content {
                Some(c) => {
                    let res_add = TokenCounter::count_tokens(c.as_str());
                    self.res_tokens = crate::tokens::add_sat_u64(self.res_tokens, res_add as u64);
                },
                None => {},
            }
            ChatStep::Finished
        } else if any_confirm(policies) {
            let pending = select_by_policy(&assistant.tool_calls, policies, ToolPolicy::Confirm);
            let mut session_payload = self.payload.clone();
            push_message(&mut session_payload.messages, assistant);
            ChatStep::AwaitConfirmation { pending, session_payload }
        } else {
            let auto_calls = select_by_policy(&assistant.tool_calls, policies, ToolPolicy::Auto);
            push_message(&mut self.payload.messages, assistant);
            ChatStep::ExecuteTools { auto_calls }
        }
    }

    /// Join one executed round back into the conversation: the synthetic
    /// messages of the round, in call order, follow what is already there.
    pub fn on_tool_results(
        &mut self,
        calls: &Vec<ToolCall>,
        policies: &Vec<ToolPolicy>,
        outputs: Vec<String>,
    )
        requires
            calls@.len() == policies@.len(),
            outputs@.len() == count_autos(policies@),
        ensures
            final(self).payload@.messages == old(self).payload@.messages + round_msgs(
                calls.deep_view(),
                policies@,
                outputs.deep_view(),
                "blocked by policy"@,
            ),
            final(self).payload@.model == old(self).payload@.model,
            final(self).payload@.tools == old(self).payload@.tools,
            final(self).payload@.stream == old(self).payload@.stream,
            final(self).payload@.run_async == old(self).payload@.run_async,
            final(self).iteration == old(self).iteration,
            final(self).req_tokens == old(self).req_tokens,
            final(self).res_tokens == old(self).res_tokens,
    {
        let refusal = blocked_content();
        let round = build_round_msgs(calls, policies, outputs, &refusal);
        append_messages(&mut self.payload.messages, round);
    }
}

} // verus!

