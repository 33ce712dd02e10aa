//! Confirm sessions: a paused tool round awaiting the user's approval.
//!
//! When governance demands confirmation, the conversation so far and the
//! pending calls are saved under a fresh session id with a bounded lifetime.
//! Resuming loads the session, executes only the approved calls, answers the
//! rest with a refusal, deletes the session and hands back the continuation
//! payload.

use vstd::prelude::*;

use crate::chat::{
    append_messages, build_round_msgs, count_autos, round_msgs, ChatMessage, ChatPayload, ToolCall,
    ToolPolicy,
};
use crate::errors::GatewayError;
use crate::kv::{
    has_key, key_idx, kv_find, lemma_key_idx, lemma_key_idx_push, lemma_key_idx_remove,
    lemma_key_idx_same_keys, lemma_unique_push, lemma_unique_remove, unique_keys,
};
use crate::strutil::contains_string;

verus! {

/// How long a saved session lives, in seconds.
pub const SESSION_TTL_SECONDS: i64 = 3600;

/// A paused tool round: the payload to resume from and the calls that await
/// the user. Times are seconds since the epoch.
#[derive(Debug)]
pub struct ToolSession {
    pub session_id: String,
    pub user_id: String,
    pub model_id: String,
    pub payload: ChatPayload,
    pub pending_tool_calls: Vec<ToolCall>,
    pub created_at: i64,
    pub expires_at: i64,
}

/// When a session created now expires.
pub fn session_expiry(now: i64) -> (r: i64)
    requires
        now <= i64::MAX - SESSION_TTL_SECONDS,
    ensures
        r == now + SESSION_TTL_SECONDS,
{
    now + SESSION_TTL_SECONDS
}

/// The session store, keyed by session id.
pub struct SessionStore {
    pub entries: Vec<(String, ToolSession)>,
}

impl SessionStore {
    pub open spec fn wf(self) -> bool {
        unique_keys(self.entries@)
    }

    pub open spec fn spec_get(self, id: Seq<char>) -> Option<ToolSession> {
        if has_key(self.entries@, id) {
            Some(self.entries@[key_idx(self.entries@, id)].1)
        } else {
            None
        }
    }

    pub fn new() -> (r: Self)
        ensures
            r.wf(),
            forall|id: Seq<char>| r.spec_get(id) is None,
    {
        SessionStore { entries: Vec::new() }
    }

    /// Save a session under its id; an existing session with that id is
    /// replaced.
    pub fn save_session(&mut self, session: ToolSession)
        requires
            old(self).wf(),
        ensures
            final(self).wf(),
            final(self).spec_get(session.session_id@) == Some(session),
            forall|id: Seq<char>|
                id != session.session_id@ ==> final(self).spec_get(id) == old(self).spec_get(id),
    {
        let key = session.session_id.clone();
        let found = kv_find(&self.entries, &key);
        let ghost s0 = self.entries@;
        match found {
            Some(i) => {
                let _ = self.entries.remove(i);
                self.entries.insert(i, (key, session));
                proof {
                    let s1 = self.entries@;
                    assert(s1 =~= s0.update(i as int, s1[i as int]));
                    assert(forall|j: int| 0 <= j < s0.len() ==> s1[j].0@ == s0[j].0@);
                    assert forall|n: Seq<char>| key_idx(s1, n) == key_idx(s0, n) by {
                        lemma_key_idx_same_keys(s1, s0, n);
                    }
                    assert forall|n: Seq<char>|
                        n != s1[i as int].0@ implies self.spec_get(n) == old(self).spec_get(n) by {
                        lemma_key_idx(s0, n);
                    }
                }
            },
            None => {
                self.entries.push((key, session));
                proof {
                    let s1 = self.entries@;
                    lemma_unique_push(s0, s1[s0.len() as int]);
                    lemma_key_idx_push(s0, s1[s0.len() as int], s1[s0.len() as int].0@);
                    assert forall|n: Seq<char>|
                        n != s1[s0.len() as int].0@ implies self.spec_get(n) == old(
                        self,
                    ).spec_get(n) by {
                        lemma_key_idx_push(s0, s1[s0.len() as int], n);
                        lemma_key_idx(s0, n);
                        if key_idx(s0, n) >= 0 {
                            assert(s1[key_idx(s0, n)] == s0[key_idx(s0, n)]);
                        }
                    }
                }
            },
        }
    }

    /// Load a live session: an unknown id is missing, a known one past its
    /// expiry is expired, anything else is handed back as saved.
    pub fn load_session(&self, session_id: &String, now: i64) -> (r: Result<
        &ToolSession,
        GatewayError,
    >)
        ensures
            match self.spec_get(session_id@) {
                None => r == Err::<&ToolSession, GatewayError>(GatewayError::SessionMissing),
                Some(sess) => {
                    if sess.expires_at <= now {
                        r == Err::<&ToolSession, GatewayError>(GatewayError::SessionExpired)
                    } else {
                        r matches Ok(out) && *out == sess
                    }
                },
            },
    {
        let found = kv_find(&self.entries, session_id);
        match found {
            None => Err(GatewayError::SessionMissing),
            Some(i) => {
                let sess = &self.entries[i].1;
                if sess.expires_at <= now {
                    Err(GatewayError::SessionExpired)
                } else {
                    Ok(sess)
                }
            },
        }
    }

    /// Delete a session; afterwards loading it reports it missing.
    pub fn delete_session(&mut self, session_id: &String)
        requires
            old(self).wf(),
        ensures
            final(self).wf(),
            final(self).spec_get(session_id@) is None,
            forall|id: Seq<char>|
                id != session_id@ ==> final(self).spec_get(id) == old(self).spec_get(id),
    {
        let found = kv_find(&self.entries, session_id);
        let ghost s0 = self.entries@;
        match found {
            Some(i) => {
                let _ = self.entries.remove(i);
                proof {
                    lemma_unique_remove(s0, i as int);
                    assert(self.entries@ == s0.remove(i as int));
                    assert(s0[i as int].0@ == session_id@);
                    assert forall|n: Seq<char>|
                        n != session_id@ implies self.spec_get(n) == old(self).spec_get(n) by {
                        lemma_key_idx_remove(s0, i as int, n);
                        lemma_key_idx(s0, n);
                        let t = s0.remove(i as int);
                        lemma_key_idx(t, n);
                        if key_idx(s0, n) != -1 {
                            assert(t[key_idx(t, n)] == s0[key_idx(s0, n)]);
                        }
                    }
                    lemma_key_idx(self.entries@, session_id@);
                    if key_idx(self.entries@, session_id@) != -1 {
                        let j = key_idx(self.entries@, session_id@);
                        if j < i as int {
                            assert(self.entries@[j] == s0[j]);
                            assert(false);
                        } else {
                            assert(self.entries@[j] == s0[j + 1]);
                            assert(false);
                        }
                    }
                }
            },
            None => {},
        }
    }
}

/// A session may be resumed only by the principal that opened it.
pub fn check_session_owner(sess: &ToolSession, user_id: &String) -> (r: Result<(), GatewayError>)
    ensures
        sess.user_id@ == user_id@ ==> r == Ok::<(), GatewayError>(()),
        sess.user_id@ != user_id@ ==> r == Err::<(), GatewayError>(GatewayError::PermissionDenied),
{
    if sess.user_id == *user_id {
        Ok(())
    } else {
        Err(GatewayError::PermissionDenied)
    }
}

/// The policy each pending call resumes under: approved ids run, the rest
/// are refused.
pub fn approval_policies(pending: &Vec<ToolCall>, approved_ids: &Vec<String>) -> (pols: Vec<
    ToolPolicy,
>)
    ensures
        pols@.len() == pending@.len(),
        forall|i: int|
            0 <= i < pols@.len() ==> pols@[i] == (if approved_ids.deep_view().contains(
                pending.deep_view()[i].id,
            ) {
                ToolPolicy::Auto
            } else {
                ToolPolicy::Block
            }),
{
    let n = pending.len();
    let mut pols: Vec<ToolPolicy> = Vec::new();
    let mut i: usize = 0;
    while i < n
        invariant
            i <= n,
            n == pending@.len(),
            pols@.len() == i,
            forall|j: int|
                0 <= j < i ==> pols@[j] == (if approved_ids.deep_view().contains(
                    pending.deep_view()[j].id,
                ) {
                    ToolPolicy::Auto
                } else {
                    ToolPolicy::Block
                }),
        decreases n - i,
    {
        proof {
            assert(pending.deep_view()[i as int] == pending@[i as int].deep_view());
        }
        if contains_string(approved_ids, &pending[i].id) {
            pols.push(ToolPolicy::Auto);
        } else {
            pols.push(ToolPolicy::Block);
        }
        i += 1;
    }
    pols
}

/// The refusal a rejected call reports back to the model.
pub fn rejected_content() -> (s: String)
    ensures
        s@ == "Rejected by user"@,
{
    String::from_str("Rejected by user")
}

/// The tool messages of a resumed round, in call order: approved calls carry
/// their outputs, rejected ones the refusal.
pub fn resume_messages(
    pending: &Vec<ToolCall>,
    pols: &Vec<ToolPolicy>,
    outputs: Vec<String>,
) -> (r: Vec<ChatMessage>)
    requires
        pending@.len() == pols@.len(),
        outputs@.len() == count_autos(pols@),
    ensures
        r.deep_view() == round_msgs(
            pending.deep_view(),
            pols@,
            outputs.deep_view(),
            "Rejected by user"@,
        ),
{
    let refusal = rejected_content();
    build_round_msgs(pending, pols, outputs, &refusal)
}

/// The payload the client resubmits: the saved conversation with the round's
/// messages appended.
pub fn continuation_payload(payload: ChatPayload, msgs: Vec<ChatMessage>) -> (r: ChatPayload)
    ensures
        r@.messages == payload@.messages + msgs.deep_view(),
        r@.model == payload@.model,
        r@.tools == payload@.tools,
        r@.stream == payload@.stream,
        r@.run_async == payload@.run_async,
{
    let mut p = payload;
    append_messages(&mut p.messages, msgs);
    p
}

} // verus!
