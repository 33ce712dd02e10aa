//! The request bodies of the administrative and tool-confirm surfaces, as
//! the core reads them. The HTTP layer outside deserialises into copies of
//! these and converts.

use vstd::prelude::*;

verus! {

/// The model a response was served by, attached for metering.
#[derive(Clone, Debug)]
pub struct ModelId(pub String);

#[derive(Debug)]
pub struct ToolConfirmRequest {
    pub session_id: String,
    pub approved_ids: Vec<String>,
}

#[derive(Debug)]
pub struct UpdateQuotaRequest {
    pub user_id: String,
    pub rpm_limit: i64,
    pub token_quota: i64,
}

#[derive(Debug)]
pub struct UpdatePolicyRequest {
    pub tool_name: String,
    pub user_id: Option<String>,
    pub policy: String,
}

#[derive(Debug)]
pub struct RegisterMcpRequest {
    pub name: String,
    pub command: String,
    pub args: Vec<String>,
}

#[derive(Debug)]
pub struct UnregisterMcpRequest {
    pub name: String,
}

#[derive(Debug)]
pub struct LoginRequest {
    pub api_key: String,
}

#[derive(Debug)]
pub struct CreateUserRequest {
    pub username: String,
    pub api_key: String,
    pub is_admin: bool,
}

#[derive(Debug)]
pub struct UpdateUserRequest {
    pub user_id: String,
    pub username: String,
    pub api_key: String,
    pub status: String,
}

#[derive(Debug)]
pub struct DeleteUserRequest {
    pub user_id: String,
}

#[derive(Debug)]
pub struct CreateModelRequest {
    pub title: String,
    pub model_id: String,
    pub api_key: String,
    pub base_url: String,
    pub vendor_type: String,
    pub cost_per_1k_tokens: i64,
    pub is_active: bool,
}

#[derive(Debug)]
pub struct UpdateModelRequest {
    pub id: String,
    pub title: String,
    pub model_id: String,
    pub api_key: String,
    pub base_url: String,
    pub vendor_type: String,
    pub cost_per_1k_tokens: i64,
    pub is_active: bool,
}

#[derive(Debug)]
pub struct DeleteModelRequest {
    pub id: String,
}

#[derive(Debug)]
pub struct CreateKeyRequest {
    pub user_id: String,
    pub label: String,
}

#[derive(Debug)]
pub struct ResetKeyRequest {
    pub key_id: i64,
}

#[derive(Debug)]
pub struct DeleteKeyRequest {
    pub key_id: i64,
}

/// One appended usage record.
#[derive(Debug)]
pub struct UsageStat {
    pub id: i64,
    pub user_id: String,
    pub model_id: String,
    pub request_tokens: i64,
    pub response_tokens: i64,
    pub request_count: i64,
    pub response_count: i64,
    pub duration_ms: i64,
    pub stat_type: String,
    pub timestamp: i64,
}

} // verus!
