use lowart_gateway::adapters::{classify_http_status, MockAdapter, UpstreamClass};
use lowart_gateway::auth::{authenticate, UserStatus, User};
use lowart_gateway::chat::{blocked_content, build_round_msgs, ChatMachine, ChatMessage, ChatPayload, ChatStep, ToolCall, ToolPolicy};
use lowart_gateway::confirm::{
    approval_policies, check_session_owner, continuation_payload, resume_messages, session_expiry,
    SessionStore, ToolSession,
};
use lowart_gateway::errors::GatewayError;
use lowart_gateway::fallback::fallback_chain;
use lowart_gateway::federation::{McpFederation, ToolRoute};
use lowart_gateway::mcp::McpTool;
use lowart_gateway::quota::{apply_usage, limit_gate, RateLimiter};
use lowart_gateway::stream::StreamAccumulator;
use lowart_gateway::tokens::TokenCounter;

fn test_user(api_key: &str, quota: i64) -> User {
    User {
        id: String::from("user-1"),
        username: String::from("testuser"),
        api_key: String::from(api_key),
        status: String::from("Active"),
        rpm_limit: 60,
        token_quota: quota,
        token_used: 0,
        is_admin: false,
        created_at: 0,
    }
}

fn user_message(text: &str) -> ChatMessage {
    ChatMessage {
        role: String::from("user"),
        content: Some(String::from(text)),
        tool_calls: Vec::new(),
        tool_call_id: None,
        name: None,
    }
}

fn payload_for(model: &str, text: &str) -> ChatPayload {
    ChatPayload {
        model: String::from(model),
        messages: vec![user_message(text)],
        tools: Vec::new(),
        stream: false,
        run_async: false,
    }
}

#[test]
fn test_auth_and_simple_chat() {
    // Without a resolvable credential the request is refused with 401.
    let denied = authenticate(None);
    assert!(matches!(denied, Err(GatewayError::AuthFailure)));
    assert_eq!(GatewayError::AuthFailure.status_code(), 401);

    // With the credential resolving to an active principal, a chat against
    // the mock model finishes with the canned greeting.
    let user = test_user("test-token-123", 1024);
    let info = authenticate(Some(user.clone())).expect("active principal");
    assert_eq!(info.status, UserStatus::Active);
    assert_eq!(info.username, "testuser");

    let adapter = MockAdapter::success();
    let mut machine = ChatMachine::new(payload_for("mock-model", "hi"));
    assert!(machine.can_call());
    let answer = adapter.complete().expect("mock succeeds");
    let step = machine.on_model_response(answer, &Vec::new());
    match step {
        ChatStep::Finished => {}
        _ => panic!("expected a final answer"),
    }
    let last = &machine.payload.messages;
    assert_eq!(last.len(), 1);
    let content = MockAdapter::success().mock_message.content.unwrap();
    assert_eq!(content, "Hello! I am a mock AI.");
}

#[test]
fn test_model_fallback_logic() {
    // fail-model falls back to success-model by priority; the chain tries
    // the primary first and each candidate once.
    let primary = String::from("fail-model");
    let fallbacks = vec![String::from("success-model")];
    let chain = fallback_chain(&primary, &fallbacks);
    assert_eq!(chain, vec![String::from("fail-model"), String::from("success-model")]);

    let mut final_content: Option<String> = None;
    for candidate in &chain {
        let adapter = if candidate == "fail-model" {
            MockAdapter::fail("backend down")
        } else {
            MockAdapter::success()
        };
        match adapter.complete() {
            Ok(msg) => {
                final_content = msg.content;
                break;
            }
            Err(GatewayError::UpstreamRetryable) => continue,
            Err(e) => panic!("unexpected error {:?}", e),
        }
    }
    assert_eq!(final_content.as_deref(), Some("Hello! I am a mock AI."));
}

#[test]
fn test_circuit_breaker_integration() {
    // Threshold 2, reset 100 ms: two failing requests surface 500, the
    // third is gated and, with no fallback, the request exhausts with 503.
    let mut cb = lowart_gateway::breaker::CircuitBreaker::new(2, 100);
    let model = String::from("cb-model");
    let adapter = MockAdapter::fail("always fails");

    for t in [0u64, 10] {
        assert!(cb.is_allowed(&model, t));
        let outcome = adapter.complete();
        assert_eq!(outcome.unwrap_err().status_code(), 500);
        cb.report_result(&model, false, t);
    }

    // Third request within the reset window: circuit open, no fallback.
    assert!(!cb.is_allowed(&model, 50));
    let chain = fallback_chain(&model, &Vec::new());
    let mut tried_any = false;
    for _candidate in &chain {
        if cb.is_allowed(&model, 50) {
            tried_any = true;
        }
    }
    assert!(!tried_any);
    assert_eq!(GatewayError::AllBackendsExhausted.status_code(), 503);
}

#[test]
fn test_sse_billing_integration() {
    // A streamed mock answer of "M" + "ock" is accounted once the stream
    // closes: the principal's token_used grows by request + response tokens.
    let mut user = test_user("test-token-sse", 1024);
    let messages = vec![user_message("hi")];
    let req_tokens = TokenCounter::count_messages_tokens(&messages) as u64;

    let adapter = MockAdapter::success();
    let chunks = adapter.stream_chunks().expect("mock stream");
    let mut acc = StreamAccumulator::new(req_tokens);
    let mut frames = Vec::new();
    for chunk in &chunks {
        frames.push(acc.on_chunk(chunk).to_string());
    }
    assert_eq!(frames.len(), 2);
    assert!(frames[0].starts_with("data: "));
    assert_eq!(acc.content, "Mock");

    let (req, res) = acc.finish();
    assert_eq!(req, req_tokens);
    assert!(res > 0);
    apply_usage(&mut user, req as i64, res as i64);
    assert!(user.token_used > 0);
    assert_eq!(user.token_used, req as i64 + res as i64);
}

#[test]
fn test_tool_call_loop_with_confirm() {
    // The assistant asks for one governed tool call: the round suspends into
    // a confirm session; approving the call resumes with its output merged.
    let adapter = MockAdapter::with_tool_call("call-1", "secret_tool", "{}");
    let mut machine = ChatMachine::new(payload_for("mock-tool-model", "do it"));
    let answer = adapter.complete().expect("mock succeeds");
    let step = machine.on_model_response(answer, &vec![ToolPolicy::Confirm]);
    let (pending, session_payload) = match step {
        ChatStep::AwaitConfirmation { pending, session_payload } => (pending, session_payload),
        _ => panic!("expected confirmation"),
    };
    assert_eq!(pending.len(), 1);
    assert_eq!(pending[0].id, "call-1");
    assert_eq!(session_payload.messages.len(), 2);

    let mut store = SessionStore::new();
    let session = ToolSession {
        session_id: String::from("sess-1"),
        user_id: String::from("user-1"),
        model_id: String::from("mock-tool-model"),
        payload: session_payload,
        pending_tool_calls: pending,
        created_at: 1000,
        expires_at: session_expiry(1000),
    };
    store.save_session(session);

    let loaded = store.load_session(&String::from("sess-1"), 1500).expect("live session");
    assert_eq!(check_session_owner(loaded, &String::from("user-2")), Err(GatewayError::PermissionDenied));
    assert_eq!(check_session_owner(loaded, &String::from("user-1")), Ok(()));

    let approved = vec![String::from("call-1")];
    let pols = approval_policies(&loaded.pending_tool_calls, &approved);
    assert_eq!(pols, vec![ToolPolicy::Auto]);
    let outputs = vec![String::from("{\"ok\":true}")];
    let round = resume_messages(&loaded.pending_tool_calls, &pols, outputs);
    assert_eq!(round.len(), 1);
    assert_eq!(round[0].role, "tool");
    assert_eq!(round[0].content.as_deref(), Some("{\"ok\":true}"));
    assert_eq!(round[0].tool_call_id.as_deref(), Some("call-1"));

    let loaded_payload = loaded.payload.clone();
    let next = continuation_payload(loaded_payload, round);
    assert_eq!(next.messages.len(), 3);

    store.delete_session(&String::from("sess-1"));
    assert_eq!(
        store.load_session(&String::from("sess-1"), 1500).unwrap_err(),
        GatewayError::SessionMissing
    );
}

#[test]
fn test_mcp_dynamic_registration() {
    // Registering a server adds its tools behind the virtual routing tool;
    // unregistering removes exactly them.
    let mut fed = McpFederation::new();
    let tool = McpTool {
        name: String::from("echo"),
        description: Some(String::from("echoes")),
        input_schema: String::from("{}"),
    };
    fed.register_client(String::from("test-server"), vec![tool]);

    let tools = fed.list_all_tools();
    assert_eq!(tools.len(), 2);
    assert_eq!(tools[0].name, "route_to_agent");
    assert_eq!(tools[1].name, "echo");

    match fed.route_tool(&String::from("echo")) {
        ToolRoute::Client { name } => assert_eq!(name, "test-server"),
        _ => panic!("echo should route to the test server"),
    }
    match fed.route_tool(&String::from("route_to_agent")) {
        ToolRoute::Virtual => {}
        _ => panic!("the virtual tool is always intercepted"),
    }

    fed.unregister_client(&String::from("test-server"));
    let tools = fed.list_all_tools();
    assert_eq!(tools.len(), 1);
    assert_eq!(tools[0].name, "route_to_agent");
    match fed.route_tool(&String::from("echo")) {
        ToolRoute::NotFound => {}
        _ => panic!("echo is gone with its server"),
    }
}

#[test]
fn test_rejected_tool_call_resumes_with_refusal() {
    let adapter = MockAdapter::with_tool_call("call-9", "dangerous", "{}");
    let mut machine = ChatMachine::new(payload_for("mock-tool-model", "try"));
    let answer = adapter.complete().unwrap();
    let step = machine.on_model_response(answer, &vec![ToolPolicy::Confirm]);
    let pending = match step {
        ChatStep::AwaitConfirmation { pending, .. } => pending,
        _ => panic!("expected confirmation"),
    };
    // Nothing approved: the call is rejected.
    let pols = approval_policies(&pending, &Vec::new());
    assert_eq!(pols, vec![ToolPolicy::Block]);
    let round = resume_messages(&pending, &pols, Vec::new());
    assert_eq!(round[0].content.as_deref(), Some("Rejected by user"));
}

#[test]
fn test_tool_loop_executes_auto_calls_and_blocks_blocked() {
    let adapter = MockAdapter::with_tool_call("call-2", "lookup", "{\"q\":1}");
    let mut machine = ChatMachine::new(payload_for("mock-tool-model", "go"));
    let answer = adapter.complete().unwrap();
    let step = machine.on_model_response(answer, &vec![ToolPolicy::Auto]);
    let auto_calls = match step {
        ChatStep::ExecuteTools { auto_calls } => auto_calls,
        _ => panic!("expected tool execution"),
    };
    assert_eq!(auto_calls.len(), 1);
    assert_eq!(auto_calls[0].name, "lookup");
    // The assistant answer joined the conversation.
    assert_eq!(machine.payload.messages.len(), 2);

    machine.on_tool_results(
        &auto_calls,
        &vec![ToolPolicy::Auto],
        vec![String::from("42")],
    );
    assert_eq!(machine.payload.messages.len(), 3);
    assert_eq!(machine.payload.messages[2].role, "tool");
    assert_eq!(machine.payload.messages[2].content.as_deref(), Some("42"));
    assert_eq!(machine.iteration, 1);
}

#[test]
fn test_max_iterations_bound() {
    let adapter = MockAdapter::with_tool_call("c", "t", "{}");
    let mut machine = ChatMachine::new(payload_for("m", "x"));
    let mut rounds = 0;
    while machine.can_call() {
        let answer = adapter.complete().unwrap();
        match machine.on_model_response(answer, &vec![ToolPolicy::Auto]) {
            ChatStep::ExecuteTools { auto_calls } => {
                machine.on_tool_results(&auto_calls, &vec![ToolPolicy::Auto], vec![String::from("r")]);
            }
            _ => panic!("mock always asks for a tool"),
        }
        rounds += 1;
    }
    assert_eq!(rounds, 5);
    assert_eq!(GatewayError::MaxIterations.status_code(), 500);
}

#[test]
fn test_quota_gate() {
    let mut user = test_user("k", 100);
    let mut limiter = RateLimiter::new();
    let minute = lowart_gateway::quota::minute_of(120);
    assert_eq!(minute, 2);
    let c1 = limiter.hit(&user.id, minute);
    assert_eq!(c1, 1);
    assert_eq!(limit_gate(&user, c1), Ok(()));

    // Over the per-minute limit: 429.
    user.rpm_limit = 1;
    let c2 = limiter.hit(&user.id, minute);
    assert_eq!(c2, 2);
    assert_eq!(limit_gate(&user, c2), Err(GatewayError::RpmExceeded));
    assert_eq!(GatewayError::RpmExceeded.status_code(), 429);

    // Quota spent: 402.
    user.rpm_limit = 60;
    user.token_used = 100;
    let c3 = limiter.hit(&user.id, minute);
    assert_eq!(limit_gate(&user, c3), Err(GatewayError::QuotaExhausted));
    assert_eq!(GatewayError::QuotaExhausted.status_code(), 402);

    // Another minute counts separately.
    let c4 = limiter.hit(&user.id, minute + 1);
    assert_eq!(c4, 1);
}

#[test]
fn test_session_expiry() {
    let mut store = SessionStore::new();
    let session = ToolSession {
        session_id: String::from("sess-exp"),
        user_id: String::from("user-1"),
        model_id: String::from("m"),
        payload: payload_for("m", "x"),
        pending_tool_calls: Vec::new(),
        created_at: 0,
        expires_at: session_expiry(0),
    };
    store.save_session(session);
    assert!(store.load_session(&String::from("sess-exp"), 3599).is_ok());
    assert_eq!(
        store.load_session(&String::from("sess-exp"), 3600).unwrap_err(),
        GatewayError::SessionExpired
    );
    assert_eq!(GatewayError::SessionExpired.status_code(), 410);
    assert_eq!(
        store.load_session(&String::from("unknown"), 0).unwrap_err(),
        GatewayError::SessionMissing
    );
}

#[test]
fn test_round_messages_keep_call_order() {
    // One blocked call between two auto calls: the synthetic messages come
    // back in call order, refusal in the middle.
    let calls = vec![
        ToolCall { id: String::from("c1"), name: String::from("t1"), arguments: String::from("{}") },
        ToolCall { id: String::from("c2"), name: String::from("t2"), arguments: String::from("{}") },
        ToolCall { id: String::from("c3"), name: String::from("t3"), arguments: String::from("{}") },
    ];
    let pols = vec![ToolPolicy::Auto, ToolPolicy::Block, ToolPolicy::Auto];
    let outs = vec![String::from("one"), String::from("three")];
    let refusal = blocked_content();
    let round = build_round_msgs(&calls, &pols, outs, &refusal);
    assert_eq!(round.len(), 3);
    assert_eq!(round[0].content.as_deref(), Some("one"));
    assert_eq!(round[1].content.as_deref(), Some("blocked by policy"));
    assert_eq!(round[2].content.as_deref(), Some("three"));
    assert_eq!(round[0].tool_call_id.as_deref(), Some("c1"));
    assert_eq!(round[1].tool_call_id.as_deref(), Some("c2"));
    assert_eq!(round[2].tool_call_id.as_deref(), Some("c3"));
}

#[test]
fn test_count_empty_messages() {
    assert_eq!(TokenCounter::count_messages_tokens(&Vec::new()), 0);
}

#[test]
fn test_classify_upstream_status() {
    assert_eq!(classify_http_status(200), UpstreamClass::Success);
    assert_eq!(classify_http_status(204), UpstreamClass::Success);
    assert_eq!(classify_http_status(429), UpstreamClass::Retryable);
    assert_eq!(classify_http_status(500), UpstreamClass::Retryable);
    assert_eq!(classify_http_status(503), UpstreamClass::Retryable);
    assert_eq!(classify_http_status(404), UpstreamClass::NonRetryable);
    assert_eq!(classify_http_status(401), UpstreamClass::NonRetryable);
}
