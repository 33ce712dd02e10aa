use lowart_gateway::a2a::{make_task_assignment, AgentRegistry, MessageType};
use lowart_gateway::adapters::{poll_decision, PollStep};
use lowart_gateway::auth::{admin_gate, login_decision, UserStatus, User};
use lowart_gateway::chat::ToolPolicy;
use lowart_gateway::crypto::Crypto;
use lowart_gateway::errors::GatewayError;
use lowart_gateway::fallback::fallback_chain;
use lowart_gateway::ids::new_uuid;
use lowart_gateway::jobs::{job_access, AsyncJob, JobStatus, JobStore};
use lowart_gateway::mcp::{pair_response, JsonRpcError, JsonRpcResponse, RpcClientState};
use lowart_gateway::registry::{
    build_cache_item, vendor_from_str, CacheItem, AdapterSpec, ModelCache, ModelConfig, Vendor,
};
use lowart_gateway::sse::SseEvent;
use lowart_gateway::stream::StreamAccumulator;
use lowart_gateway::tokens::TokenCounter;
use lowart_gateway::transform::{apply_transform, new_script_engine};

fn admin_user() -> User {
    User {
        id: String::from("admin-1"),
        username: String::from("admin"),
        api_key: String::from("admin-token"),
        status: String::from("Active"),
        rpm_limit: 60,
        token_quota: 1000,
        token_used: 0,
        is_admin: true,
        created_at: 0,
    }
}

fn model_config(vendor: &str, active: bool, api_key: &str) -> ModelConfig {
    ModelConfig {
        id: String::from("m-1"),
        title: String::from("Mock Title"),
        model_id: String::from("mock-model"),
        api_key: String::from(api_key),
        base_url: String::from("any"),
        vendor_type: String::from(vendor),
        cost_per_1k_tokens: 0,
        request_script: None,
        response_script: None,
        is_active: active,
        created_at: 0,
    }
}

#[test]
fn test_error_status_codes() {
    assert_eq!(GatewayError::AuthFailure.status_code(), 401);
    assert_eq!(GatewayError::PermissionDenied.status_code(), 403);
    assert_eq!(GatewayError::QuotaExhausted.status_code(), 402);
    assert_eq!(GatewayError::ModelNotFound.status_code(), 404);
    assert_eq!(GatewayError::JobNotFound.status_code(), 404);
    assert_eq!(GatewayError::SessionMissing.status_code(), 404);
    assert_eq!(GatewayError::SessionExpired.status_code(), 410);
    assert_eq!(GatewayError::BadRequest.status_code(), 400);
    assert_eq!(GatewayError::TransformFailed.status_code(), 500);
    assert_eq!(GatewayError::UpstreamRetryable.status_code(), 500);
    assert_eq!(GatewayError::UpstreamNonRetryable.status_code(), 500);
    assert_eq!(GatewayError::AllBackendsExhausted.status_code(), 503);
    assert_eq!(GatewayError::MaxIterations.status_code(), 500);
    assert_eq!(GatewayError::RpmExceeded.status_code(), 429);
    assert_eq!(GatewayError::InternalError.status_code(), 500);
    assert_eq!(GatewayError::AuthFailure.message(), "invalid or missing credential");
}

#[test]
fn test_login_and_admin_gate() {
    assert_eq!(login_decision(None).unwrap_err(), GatewayError::AuthFailure);
    let mut user = admin_user();
    assert!(login_decision(Some(user.clone())).is_ok());
    assert_eq!(admin_gate(&user), Ok(()));
    user.is_admin = false;
    assert_eq!(login_decision(Some(user.clone())).unwrap_err(), GatewayError::PermissionDenied);
    assert_eq!(admin_gate(&user), Err(GatewayError::PermissionDenied));
}

#[test]
fn test_user_status_from_str() {
    assert_eq!(UserStatus::from_str("Active"), UserStatus::Active);
    assert_eq!(UserStatus::from_str("Inactive"), UserStatus::Inactive);
    assert_eq!(UserStatus::from_str("Blocked"), UserStatus::Blocked);
    assert_eq!(UserStatus::from_str("anything"), UserStatus::Inactive);
}

#[test]
fn test_crypto_round_trip() {
    // decrypt(encrypt(s)) == s under a stable master key.
    let key = Crypto::master_key_bytes("unit-test-master-key");
    assert_eq!(key.len(), 32);
    let plain = "sk-super-secret-key with unicode \u{00e9}\u{4e16}";
    let enc = Crypto::encrypt(&key, plain).expect("encrypt");
    let dec = Crypto::decrypt(&key, &enc).expect("decrypt");
    assert_eq!(dec, plain);

    // Two envelopes of the same text differ (fresh nonce) but both open.
    let enc2 = Crypto::encrypt(&key, plain).expect("encrypt");
    assert_eq!(Crypto::decrypt(&key, &enc2).expect("decrypt"), plain);

    // A different key cannot open the envelope.
    let other = Crypto::master_key_bytes("another-master-key");
    assert!(Crypto::decrypt(&other, &enc).is_err());

    // Non-envelope material falls back to the literal.
    let literal = String::from("plaintext-dev-key");
    assert_eq!(Crypto::decrypt_or_literal(&key, &literal), "plaintext-dev-key");
    assert_eq!(Crypto::decrypt_or_literal(&key, &enc), plain);
}

#[test]
fn test_master_key_pad_and_truncate() {
    let short = Crypto::master_key_bytes("abc");
    assert_eq!(short.len(), 32);
    assert_eq!(&short[..3], b"abc");
    assert!(short[3..].iter().all(|b| *b == 0));
    let long = Crypto::master_key_bytes("0123456789012345678901234567890123456789");
    assert_eq!(long.len(), 32);
    assert_eq!(&long[..], b"01234567890123456789012345678901");
}

#[test]
fn test_token_counter() {
    assert_eq!(TokenCounter::count_tokens(""), 0);
    let n = TokenCounter::count_tokens("Hello world");
    assert!(n > 0);

    // Counting a message list concatenates the contents.
    let m1 = lowart_gateway::chat::ChatMessage {
        role: String::from("user"),
        content: Some(String::from("Hello ")),
        tool_calls: Vec::new(),
        tool_call_id: None,
        name: None,
    };
    let m2 = lowart_gateway::chat::ChatMessage {
        role: String::from("assistant"),
        content: Some(String::from("world")),
        tool_calls: Vec::new(),
        tool_call_id: None,
        name: None,
    };
    let m3 = lowart_gateway::chat::ChatMessage {
        role: String::from("tool"),
        content: None,
        tool_calls: Vec::new(),
        tool_call_id: None,
        name: None,
    };
    let both = TokenCounter::count_messages_tokens(&vec![m1, m2, m3]);
    assert_eq!(both, TokenCounter::count_tokens("Hello world"));
}

#[test]
fn test_sse_rendering() {
    let plain = SseEvent::new(String::from("{\"x\":1}"));
    assert_eq!(plain.to_string(), "data: {\"x\":1}\n\n");

    let err = StreamAccumulator::new(0).on_error(&String::from("boom"));
    assert_eq!(err.to_string(), "event: error\ndata: boom\n\n");

    let full = SseEvent {
        event: Some(String::from("message")),
        data: String::from("d"),
        id: Some(String::from("7")),
    };
    assert_eq!(full.to_string(), "event: message\nid: 7\ndata: d\n\n");
}

#[test]
fn test_fallback_chain_dedup_and_cycles() {
    let primary = String::from("a");
    let fallbacks = vec![
        String::from("b"),
        String::from("a"),
        String::from("b"),
        String::from("c"),
    ];
    let chain = fallback_chain(&primary, &fallbacks);
    assert_eq!(chain, vec![String::from("a"), String::from("b"), String::from("c")]);
}

#[test]
fn test_vendor_and_cache() {
    assert_eq!(vendor_from_str("OpenAI"), Some(Vendor::OpenAi));
    assert_eq!(vendor_from_str("Anthropic"), Some(Vendor::Anthropic));
    assert_eq!(vendor_from_str("ComfyUI"), Some(Vendor::ImageWorkflow));
    assert_eq!(vendor_from_str("Mock"), Some(Vendor::Mock));
    assert_eq!(vendor_from_str("MockFail"), Some(Vendor::MockFail));
    assert_eq!(vendor_from_str("unknown"), None);

    let key = Crypto::master_key_bytes("master");
    // Inactive rows and unknown vendors are not found.
    let inactive = build_cache_item(model_config("Mock", false, "k"), &key);
    assert_eq!(inactive.unwrap_err(), GatewayError::ModelNotFound);
    let unknown = build_cache_item(model_config("NoSuchVendor", true, "k"), &key);
    assert_eq!(unknown.unwrap_err(), GatewayError::ModelNotFound);

    // An enveloped key is decrypted during resolution; a literal is kept.
    let enc = Crypto::encrypt(&key, "real-api-key").unwrap();
    let item = build_cache_item(model_config("Mock", true, &enc), &key).unwrap();
    assert_eq!(item.adapter.api_key, "real-api-key");
    assert_eq!(item.adapter.vendor, Vendor::Mock);
    let item2 = build_cache_item(model_config("Mock", true, "literal-key"), &key).unwrap();
    assert_eq!(item2.adapter.api_key, "literal-key");

    // The cache holds one entry per id; clearing forces re-instantiation.
    let mut cache = ModelCache::new(100, 3_600_000);
    cache.insert(String::from("mock-model"), item, 1000);
    assert!(cache.lookup(&String::from("mock-model"), 2000).is_some());
    // Replacement keeps a single entry for the id.
    cache.insert(String::from("mock-model"), item2, 3000);
    assert_eq!(cache.entries.len(), 1);
    // Past its lifetime the entry misses.
    assert!(cache.lookup(&String::from("mock-model"), 3000 + 3_600_000).is_none());
    cache.clear();
    assert!(cache.lookup(&String::from("mock-model"), 3001).is_none());
}

#[test]
fn test_cache_capacity_eviction() {
    let mut cache = ModelCache::new(2, 1000);
    for (i, name) in ["a", "b", "c"].iter().enumerate() {
        let item = CacheItem {
            adapter: AdapterSpec {
                vendor: Vendor::Mock,
                model_id: String::from(*name),
                api_key: String::new(),
                base_url: String::new(),
            },
            request_script: None,
            response_script: None,
        };
        cache.insert(String::from(*name), item, i as u64);
    }
    assert_eq!(cache.entries.len(), 2);
    assert!(cache.lookup(&String::from("a"), 3).is_none());
    assert!(cache.lookup(&String::from("b"), 3).is_some());
    assert!(cache.lookup(&String::from("c"), 3).is_some());
}

#[test]
fn test_job_lifecycle() {
    let mut store = JobStore::new();
    let id = new_uuid();
    let job = AsyncJob {
        job_id: id.clone(),
        user_id: String::from("user-1"),
        status: JobStatus::Pending,
        payload: Some(String::from("{}")),
        result: None,
        error: None,
        created_at: 0,
        updated_at: 0,
    };
    store.create_job(job).unwrap();
    assert_eq!(store.find_by_id(&id).unwrap().status, JobStatus::Pending);

    store.update_status(&id, JobStatus::Running, None, None, 5);
    assert_eq!(store.find_by_id(&id).unwrap().status, JobStatus::Running);

    store.update_status(&id, JobStatus::Completed, Some(String::from("{\"ok\":1}")), None, 9);
    let done = store.find_by_id(&id).unwrap();
    assert_eq!(done.status, JobStatus::Completed);
    assert_eq!(done.result.as_deref(), Some("{\"ok\":1}"));
    assert_eq!(done.updated_at, 9);

    // Ownership: another principal may not read the job.
    assert_eq!(job_access(done, &String::from("user-2")), Err(GatewayError::PermissionDenied));
    assert_eq!(job_access(done, &String::from("user-1")), Ok(()));

    let mine = store.list_by_user(&String::from("user-1"));
    assert_eq!(mine.len(), 1);
    assert_eq!(JobStatus::from_str("completed"), JobStatus::Completed);
    assert_eq!(JobStatus::Completed.as_str(), "completed");
}

#[test]
fn test_rpc_ids_and_pairing() {
    // Ids are assigned in call order; each exchange settles before the next
    // call, so responses come back in call order.
    let mut st = RpcClientState::new();

    let r1 = st.next_request(String::from("initialize"), Some(String::from("{}")));
    assert_eq!(r1.id, Some(1));
    assert_eq!(r1.jsonrpc, "2.0");
    let ok1 = JsonRpcResponse {
        jsonrpc: String::from("2.0"),
        result: Some(String::from("{}")),
        error: None,
        id: 1,
    };
    assert_eq!(st.complete_exchange(&r1, ok1).unwrap().as_deref(), Some("{}"));

    let r2 = st.next_request(String::from("tools/list"), None);
    assert_eq!(r2.id, Some(2));
    let ok2 = JsonRpcResponse {
        jsonrpc: String::from("2.0"),
        result: Some(String::from("{\"tools\":[]}")),
        error: None,
        id: 2,
    };
    assert_eq!(st.complete_exchange(&r2, ok2).unwrap().as_deref(), Some("{\"tools\":[]}"));

    // A response whose id is not the outstanding call's is refused.
    let r3 = st.next_request(String::from("tools/call"), Some(String::from("{\"name\":\"echo\"}")));
    assert_eq!(r3.id, Some(3));
    let misdelivered = JsonRpcResponse {
        jsonrpc: String::from("2.0"),
        result: None,
        error: None,
        id: 9,
    };
    assert_eq!(pair_response(&r3, misdelivered).unwrap_err(), GatewayError::InternalError);

    // A carried error surfaces as an upstream failure.
    let failed = JsonRpcResponse {
        jsonrpc: String::from("2.0"),
        result: None,
        error: Some(JsonRpcError { code: -32601, message: String::from("no such method"), data: None }),
        id: 3,
    };
    assert_eq!(st.complete_exchange(&r3, failed).unwrap_err(), GatewayError::UpstreamNonRetryable);
}

#[test]
fn test_agent_dispatch() {
    let mut reg = AgentRegistry::new();
    reg.register_agent(String::from("painter"));
    reg.register_agent(String::from("gateway"));
    reg.register_agent(String::from("writer"));

    let targets = reg
        .dispatch_targets(&String::from("gateway"), &String::from("*"))
        .unwrap();
    assert_eq!(targets, vec![String::from("painter"), String::from("writer")]);

    let one = reg
        .dispatch_targets(&String::from("gateway"), &String::from("painter"))
        .unwrap();
    assert_eq!(one, vec![String::from("painter")]);

    assert!(reg
        .dispatch_targets(&String::from("gateway"), &String::from("missing"))
        .is_err());

    let msg = make_task_assignment(new_uuid(), &String::from("painter"), String::from("{\"prompt\":\"a cat\"}"), 7);
    assert_eq!(msg.sender, "gateway");
    assert_eq!(msg.receiver, "painter");
    assert_eq!(msg.msg_type, MessageType::TaskAssign);
}

#[test]
fn test_poll_decision() {
    assert_eq!(poll_decision(0, true), PollStep::Done);
    assert_eq!(poll_decision(0, false), PollStep::Retry);
    assert_eq!(poll_decision(58, false), PollStep::Retry);
    assert_eq!(poll_decision(59, false), PollStep::TimedOut);
}

#[test]
fn test_tool_policy_parsing() {
    assert_eq!(ToolPolicy::from_str("block"), ToolPolicy::Block);
    assert_eq!(ToolPolicy::from_str("confirm"), ToolPolicy::Confirm);
    assert_eq!(ToolPolicy::from_str("auto"), ToolPolicy::Auto);
    assert_eq!(ToolPolicy::from_str("anything"), ToolPolicy::Auto);
    assert_eq!(
        lowart_gateway::chat::effective_policy(None, None),
        ToolPolicy::Auto
    );
    assert_eq!(
        lowart_gateway::chat::effective_policy(Some(ToolPolicy::Block), None),
        ToolPolicy::Block
    );
    assert_eq!(
        lowart_gateway::chat::effective_policy(Some(ToolPolicy::Block), Some(ToolPolicy::Confirm)),
        ToolPolicy::Confirm
    );
}

#[test]
fn test_script_transform() {
    let engine = new_script_engine();
    let input: serde_json::Value = serde_json::from_str("{\"model\":\"m\"}").unwrap();

    // Identity transform.
    let out = apply_transform(&engine, "input", input.clone(), false).unwrap();
    assert_eq!(out, input);

    // The registered builtin is visible to scripts.
    let counted = apply_transform(&engine, "count_tokens(\"Hello world\")", input.clone(), false)
        .unwrap();
    assert!(counted.as_i64().unwrap() > 0);

    // A broken pre-transform is the caller's bad request; post is internal.
    assert_eq!(
        apply_transform(&engine, "nonsense(", input.clone(), false).unwrap_err(),
        GatewayError::BadRequest
    );
    assert_eq!(
        apply_transform(&engine, "nonsense(", input, true).unwrap_err(),
        GatewayError::TransformFailed
    );
}

#[test]
fn test_uuid_is_fresh() {
    let a = new_uuid();
    let b = new_uuid();
    assert_ne!(a, b);
    assert_eq!(a.len(), 36);
}
