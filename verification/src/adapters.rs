//! Adapter-side decisions: upstream failure classification, the
//! image-workflow polling bound, and the mock backends used by tests.

use vstd::prelude::*;

use crate::chat::{ChatMessage, ToolCall, ToolCallView};
use crate::errors::GatewayError;
use crate::stream::StreamChunk;

verus! {

/// How one upstream answer counts: success, a failure worth a fallback
/// (transport trouble, HTTP 500s, 429), or a failure surfaced directly
/// (other non-success statuses).
#[derive(Clone, Copy, Debug, PartialEq, Eq, Structural)]
pub enum UpstreamClass {
    Success,
    Retryable,
    NonRetryable,
}

pub fn classify_http_status(status: u16) -> (c: UpstreamClass)
    ensures
        status >= 500 || status == 429 ==> c == UpstreamClass::Retryable,
        200 <= status < 300 ==> c == UpstreamClass::Success,
        !(status >= 500 || status == 429) && !(200 <= status < 300) ==> c
            == UpstreamClass::NonRetryable,
{
    if status >= 500 || status == 429 {
        UpstreamClass::Retryable
    } else if 200 <= status && status < 300 {
        UpstreamClass::Success
    } else {
        UpstreamClass::NonRetryable
    }
}

/// The error an upstream failure surfaces as.
pub fn upstream_error(c: UpstreamClass) -> (e: GatewayError)
    requires
        c != UpstreamClass::Success,
    ensures
        c == UpstreamClass::Retryable ==> e == GatewayError::UpstreamRetryable,
        c == UpstreamClass::NonRetryable ==> e == GatewayError::UpstreamNonRetryable,
{
    match c {
        UpstreamClass::Retryable => GatewayError::UpstreamRetryable,
        _ => GatewayError::UpstreamNonRetryable,
    }
}

/// How many times the image-workflow adapter polls its job endpoint before
/// giving up (at 5-second intervals).
pub const MAX_POLL_ATTEMPTS: u32 = 60;

/// What the poll loop does after one probe of the job endpoint.
#[derive(Clone, Copy, Debug, PartialEq, Eq, Structural)]
pub enum PollStep {
    Done,
    Retry,
    TimedOut,
}

/// The polling decision: a present result finishes; otherwise retry until
/// the attempt bound, then time out (a retryable failure).
pub fn poll_decision(attempts: u32, has_result: bool) -> (s: PollStep)
    ensures
        has_result ==> s == PollStep::Done,
        !has_result && attempts + 1 >= MAX_POLL_ATTEMPTS ==> s == PollStep::TimedOut,
        !has_result && attempts + 1 < MAX_POLL_ATTEMPTS ==> s == PollStep::Retry,
{
    if has_result {
        PollStep::Done
    } else if attempts >= MAX_POLL_ATTEMPTS - 1 {
        PollStep::TimedOut
    } else {
        PollStep::Retry
    }
}

/// The mock backend: a canned answer, an optional forced failure, and a
/// fixed two-chunk stream. Used by tests and by the mock vendors.
#[derive(Debug)]
pub struct MockAdapter {
    pub model_id: String,
    pub response_delay_ms: u64,
    pub should_fail: bool,
    pub error_message: String,
    pub mock_message: ChatMessage,
}

impl MockAdapter {
    /// The always-succeeding mock: one assistant greeting.
    pub fn success() -> (m: MockAdapter)
        ensures
            m.model_id@ == "mock-model"@,
            !m.should_fail,
            m.mock_message@.role == "assistant"@,
            m.mock_message@.content == Some("Hello! I am a mock AI."@),
            m.mock_message@.tool_calls.len() == 0,
    {
        let msg = ChatMessage {
            role: String::from_str("assistant"),
            content: Some(String::from_str("Hello! I am a mock AI.")),
            tool_calls: Vec::new(),
            tool_call_id: None,
            name: None,
        };
        proof {
            assert(msg@.tool_calls =~= Seq::<ToolCallView>::empty());
        }
        MockAdapter {
            model_id: String::from_str("mock-model"),
            response_delay_ms: 0,
            should_fail: false,
            error_message: String::new(),
            mock_message: msg,
        }
    }

    /// The always-failing mock.
    pub fn fail(msg: &str) -> (m: MockAdapter)
        ensures
            m.model_id@ == "mock-fail"@,
            m.should_fail,
            m.error_message@ == msg@,
    {
        MockAdapter {
            model_id: String::from_str("mock-fail"),
            response_delay_ms: 0,
            should_fail: true,
            error_message: msg.to_owned(),
            mock_message: ChatMessage {
                role: String::from_str("assistant"),
                content: None,
                tool_calls: Vec::new(),
                tool_call_id: None,
                name: None,
            },
        }
    }

    /// A mock whose answer asks for one tool call.
    pub fn with_tool_call(call_id: &str, tool_name: &str, args: &str) -> (m: MockAdapter)
        ensures
            m.model_id@ == "mock-tool-model"@,
            !m.should_fail,
            m.mock_message@.role == "assistant"@,
            m.mock_message@.content is None,
            m.mock_message@.tool_calls == seq![
                ToolCallView { id: call_id@, name: tool_name@, arguments: args@ },
            ],
    {
        let mut calls: Vec<ToolCall> = Vec::new();
        calls.push(
            ToolCall { id: call_id.to_owned(), name: tool_name.to_owned(), arguments: args.to_owned() },
        );
        let msg = ChatMessage {
            role: String::from_str("assistant"),
            content: None,
            tool_calls: calls,
            tool_call_id: None,
            name: None,
        };
        proof {
            assert(msg@.tool_calls =~= seq![
                ToolCallView { id: call_id@, name: tool_name@, arguments: args@ },
            ]);
        }
        MockAdapter {
            model_id: String::from_str("mock-tool-model"),
            response_delay_ms: 0,
            should_fail: false,
            error_message: String::new(),
            mock_message: msg,
        }
    }

    /// One blocking completion: the canned answer, or the forced failure as
    /// a retryable upstream error.
    pub fn complete(&self) -> (r: Result<ChatMessage, GatewayError>)
        ensures
            self.should_fail ==> r == Err::<ChatMessage, GatewayError>(
                GatewayError::UpstreamRetryable,
            ),
            !self.should_fail ==> (r matches Ok(m) && m@ == self.mock_message@),
    {
        if self.should_fail {
            Err(GatewayError::UpstreamRetryable)
        } else {
            Ok(self.mock_message.clone())
        }
    }

    /// One streaming completion: two chunks spelling "Mock", or the forced
    /// failure.
    pub fn stream_chunks(&self) -> (r: Result<Vec<StreamChunk>, GatewayError>)
        ensures
            self.should_fail ==> r == Err::<Vec<StreamChunk>, GatewayError>(
                GatewayError::UpstreamRetryable,
            ),
            !self.should_fail ==> (r matches Ok(chunks) && chunks@.len() == 2
                && chunks@[0].delta_content.deep_view() == Some("M"@)
                && chunks@[1].delta_content.deep_view() == Some("ock"@)),
    {
        if self.should_fail {
            return Err(GatewayError::UpstreamRetryable);
        }
        let mut chunks: Vec<StreamChunk> = Vec::new();
        chunks.push(
            StreamChunk {
                raw: String::from_str("{\"choices\":[{\"delta\":{\"content\":\"M\"}}]}"),
                delta_content: Some(String::from_str("M")),
            },
        );
        chunks.push(
            StreamChunk {
                raw: String::from_str("{\"choices\":[{\"delta\":{\"content\":\"ock\"}}]}"),
                delta_content: Some(String::from_str("ock")),
            },
        );
        Ok(chunks)
    }
}

} // verus!
