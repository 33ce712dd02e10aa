//! The script transform: optional per-model pre- and post-request rewrites,
//! run by a sandboxed scripting engine with one registered builtin,
//! `count_tokens`.

use vstd::prelude::*;

use crate::errors::GatewayError;
use crate::tokens::{bpe_token_count, TokenCounter};

verus! {

#[verifier::external_type_specification]
#[verifier::external_body]
pub struct ExEngine(rhai::Engine);

#[verifier::external_type_specification]
#[verifier::external_body]
pub struct ExValue(serde_json::Value);

/// The sandboxed engine the transforms run on.
pub struct ScriptEngine {
    pub engine: rhai::Engine,
}

/// The `count_tokens` builtin the scripts see: the BPE count, clamped to
/// i64.
pub fn token_count_builtin(text: &String) -> (r: i64)
    ensures
        r >= 0,
        r as nat == bpe_token_count(text@) || (r == i64::MAX && bpe_token_count(text@) > i64::MAX),
{
    let c = TokenCounter::count_tokens(text.as_str());
    if c as u64 > i64::MAX as u64 {
        i64::MAX
    } else {
        c as i64
    }
}

/// Relies on rhai::Engine::new and Engine::register_fn: a fresh engine whose
/// one builtin calls `token_count_builtin`.
#[verifier::external_body]
pub fn new_script_engine() -> (e: ScriptEngine)
{
    let mut engine = rhai::Engine::new();
    engine.register_fn("count_tokens", |text: String| token_count_builtin(&text) );
    ScriptEngine { engine }
}

/// Relies on rhai::Engine::eval_with_scope and rhai::serde's conversions:
/// runs one user transform over the JSON value bound as `input`. Nothing is
/// assumed of the outcome.
#[verifier::external_body]
fn rhai_transform(engine: &ScriptEngine, script: &str, input: serde_json::Value) -> (r: Result<
    serde_json::Value,
    String,
>)
{
    let mut scope = rhai::Scope::new();
    let dynamic: rhai::Dynamic = match rhai::serde::to_dynamic(input) {
        Ok(d) => d,
        Err(e) => return Err(e.to_string()),
    };
    scope.push("input", dynamic);
    let result: rhai::Dynamic = match engine.engine.eval_with_scope(&mut scope, script) {
        Ok(d) => d,
        Err(e) => return Err(e.to_string()),
    };
    match rhai::serde::from_dynamic(&result) {
        Ok(v) => Ok(v),
        Err(e) => Err(e.to_string()),
    }
}

/// Run one transform and classify its failure: a failed pre-request
/// transform is the caller's bad request, a failed post-request transform is
/// an internal transform failure.
pub fn apply_transform(
    engine: &ScriptEngine,
    script: &str,
    input: serde_json::Value,
    post: bool,
) -> (r: Result<serde_json::Value, GatewayError>)
    ensures
        r matches Err(e) ==> e == if post {
            GatewayError::TransformFailed
        } else {
            GatewayError::BadRequest
        },
{
    match rhai_transform(engine, script, input) {
        Ok(v) => Ok(v),
        Err(_) => {
            if post {
                Err(GatewayError::TransformFailed)
            } else {
                Err(GatewayError::BadRequest)
            }
        },
    }
}

} // verus!
