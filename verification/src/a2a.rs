//! Agent-to-agent messaging: the message shape and the dispatch decision.
//!
//! The orchestrator owns the registered agents; dispatch picks the
//! receivers. Delivering a message is the caller's I/O: the virtual
//! `route_to_agent` tool only hands a task over and returns at once.

use vstd::prelude::*;

use crate::errors::GatewayError;
use crate::strutil::str_eq;

verus! {

#[derive(Clone, Copy, Debug, PartialEq, Eq, Structural)]
pub enum MessageType {
    TaskAssign,
    TaskStatus,
    TaskResult,
    Query,
    Response,
}

/// One agent-to-agent message; `content` is raw JSON text and `timestamp`
/// seconds since the epoch.
#[derive(Debug)]
pub struct AgentMessage {
    pub id: String,
    pub sender: String,
    pub receiver: String,
    pub msg_type: MessageType,
    pub content: String,
    pub timestamp: i64,
}

/// The task-assignment message the virtual routing tool synthesises: sent by
/// the gateway to the target agent.
pub fn make_task_assignment(msg_id: String, target: &String, content: String, now: i64) -> (m:
    AgentMessage)
    ensures
        m.id == msg_id,
        m.sender@ == "gateway"@,
        m.receiver@ == target@,
        m.msg_type == MessageType::TaskAssign,
        m.content == content,
        m.timestamp == now,
{
    AgentMessage {
        id: msg_id,
        sender: String::from_str("gateway"),
        receiver: target.clone(),
        msg_type: MessageType::TaskAssign,
        content,
        timestamp: now,
    }
}

/// The required arguments of the virtual routing tool; a missing target or
/// message refuses the call.
pub fn agent_route_args(target: Option<String>, message: Option<String>) -> (r: Result<
    (String, String),
    GatewayError,
>)
    ensures
        match (target, message) {
            (Some(t), Some(m)) => r matches Ok(pair) && pair.0 == t && pair.1 == m,
            _ => r == Err::<(String, String), GatewayError>(GatewayError::BadRequest),
        },
{
    match (target, message) {
        (Some(t), Some(m)) => Ok((t, m)),
        _ => Err(GatewayError::BadRequest),
    }
}

/// The ids that should receive a broadcast from `sender`: everyone else, in
/// registration order.
pub open spec fn broadcast_targets(agents: Seq<Seq<char>>, sender: Seq<char>) -> Seq<Seq<char>>
    decreases agents.len(),
{
    if agents.len() == 0 {
        Seq::empty()
    } else {
        let rest = broadcast_targets(agents.drop_first(), sender);
        if agents[0] == sender {
            rest
        } else {
            seq![agents[0]] + rest
        }
    }
}

/// Broadcasting over one more agent appends it unless it is the sender.
proof fn lemma_broadcast_snoc(agents: Seq<Seq<char>>, sender: Seq<char>, k: int)
    requires
        0 <= k < agents.len(),
    ensures
        broadcast_targets(agents.take(k + 1), sender) == if agents[k] == sender {
            broadcast_targets(agents.take(k), sender)
        } else {
            broadcast_targets(agents.take(k), sender).push(agents[k])
        },
    decreases k,
{
    if k == 0 {
        assert(agents.take(1)[0] == agents[0]);
        assert(agents.take(1).drop_first() =~= Seq::<Seq<char>>::empty());
        assert(agents.take(0) =~= Seq::<Seq<char>>::empty());
        assert(broadcast_targets(Seq::<Seq<char>>::empty(), sender) =~= Seq::<Seq<char>>::empty());
        if agents[0] != sender {
            assert(broadcast_targets(agents.take(1), sender) =~= broadcast_targets(
                agents.take(0),
                sender,
            ).push(agents[0]));
        }
    } else {
        lemma_broadcast_snoc(agents.drop_first(), sender, k - 1);
        assert(agents.take(k + 1)[0] == agents[0]);
        assert(agents.take(k + 1).drop_first() =~= agents.drop_first().take(k));
        assert(agents.take(k)[0] == agents[0]);
        assert(agents.take(k).drop_first() =~= agents.drop_first().take(k - 1));
        assert(agents.drop_first()[k - 1] == agents[k]);
        if agents[0] != sender {
            if agents[k] != sender {
                assert(broadcast_targets(agents.take(k + 1), sender) =~= broadcast_targets(
                    agents.take(k),
                    sender,
                ).push(agents[k]));
            }
        }
    }
}

/// The registered agents, in registration order.
pub struct AgentRegistry {
    pub agents: Vec<String>,
}

impl AgentRegistry {
    pub fn new() -> (r: Self)
        ensures
            r.agents@.len() == 0,
    {
        AgentRegistry { agents: Vec::new() }
    }

    /// Register an agent id (the caller keeps the handle itself).
    pub fn register_agent(&mut self, id: String)
        ensures
            final(self).agents.deep_view() == old(self).agents.deep_view().push(id@),
    {
        let ghost d0 = self.agents.deep_view();
        let ghost ov = self.agents@;
        self.agents.push(id);
        proof {
            assert forall|l: int|
                0 <= l < self.agents@.len() implies self.agents.deep_view()[l] == d0.push(
                self.agents@[ov.len() as int]@,
            )[l] by {
                assert(self.agents.deep_view()[l] == self.agents@[l]@);
                if l < ov.len() {
                    assert(self.agents@[l] == ov[l]);
                    assert(d0[l] == ov[l]@);
                }
            }
            assert(self.agents.deep_view() =~= d0.push(self.agents@[ov.len() as int]@));
        }
    }

    /// Who receives a message: `*` reaches everyone but the sender, anything
    /// else exactly the named agent — or nobody, which is an error.
    pub fn dispatch_targets(&self, sender: &String, receiver: &String) -> (r: Result<
        Vec<String>,
        GatewayError,
    >)
        ensures
            receiver@ == "*"@ ==> (r matches Ok(v) && v.deep_view() == broadcast_targets(
                self.agents.deep_view(),
                sender@,
            )),
            receiver@ != "*"@ && self.agents.deep_view().contains(receiver@) ==> (r matches Ok(v)
                && v.deep_view() == seq![receiver@]),
            receiver@ != "*"@ && !self.agents.deep_view().contains(receiver@) ==> r == Err::<
                Vec<String>,
                GatewayError,
            >(GatewayError::InternalError),
    {
        let ghost ags = self.agents.deep_view();
        if str_eq(receiver.as_str(), "*") {
            let n = self.agents.len();
            let mut out: Vec<String> = Vec::new();
            let mut i: usize = 0;
            proof {
                assert(ags.take(0) =~= Seq::<Seq<char>>::empty());
                assert(out.deep_view() =~= Seq::<Seq<char>>::empty());
            }
            while i < n
                invariant
                    i <= n,
                    n == self.agents@.len(),
                    ags == self.agents.deep_view(),
                    out.deep_view() == broadcast_targets(ags.take(i as int), sender@),
                decreases n - i,
            {
                let ghost pre = out.deep_view();
                proof {
                    assert(ags[i as int] == self.agents@[i as int]@);
                }
                if !(self.agents[i] == *sender) {
                    let ghost ov = out@;
                    out.push(self.agents[i].clone());
                    proof {
                        assert forall|l: int|
                            0 <= l < out@.len() implies out.deep_view()[l] == pre.push(
                            ags[i as int],
                        )[l] by {
                            assert(out.deep_view()[l] == out@[l]@);
                            if l < ov.len() {
                                assert(out@[l] == ov[l]);
                                assert(pre[l] == ov[l]@);
                            }
                        }
                        assert(out.deep_view() =~= pre.push(ags[i as int]));
                    }
                }
                proof {
                    lemma_broadcast_snoc(ags, sender@, i as int);
                }
                i += 1;
            }
            proof {
                assert(ags.take(n as int) =~= ags);
            }
            Ok(out)
        } else {
            if crate::strutil::contains_string(&self.agents, receiver) {
                let mut out: Vec<String> = Vec::new();
                out.push(receiver.clone());
                proof {
                    assert(out.deep_view() =~= seq![receiver@]);
                }
                Ok(out)
            } else {
                Err(GatewayError::InternalError)
            }
        }
    }
}

} // verus!
