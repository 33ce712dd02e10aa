//! MCP federation: the registry of connected MCP clients and the aggregated
//! tool surface.
//!
//! Each registered client is held with a snapshot of the tools it offers
//! (taken from its `tools/list` answer). The federation aggregates those
//! behind one virtual tool, `route_to_agent`, which hands a task to another
//! agent instead of a tool backend. Spawning the child processes and
//! refreshing the snapshots is the caller's work.

use vstd::prelude::*;

use crate::kv::{
    has_key, key_idx, kv_find, lemma_key_idx, lemma_key_idx_push, lemma_key_idx_remove,
    lemma_key_idx_same_keys, lemma_unique_push, unique_keys,
};
use crate::mcp::{McpTool, McpToolView};

verus! {

/// All tools of all clients, in registration order.
pub open spec fn flatten_tools(s: Seq<(String, Vec<McpTool>)>) -> Seq<McpToolView>
    decreases s.len(),
{
    if s.len() == 0 {
        Seq::empty()
    } else {
        s[0].1.deep_view() + flatten_tools(s.drop_first())
    }
}

/// The flattened tools split around one client: what stands before it, its
/// own contribution, and what stands after. Removing the client removes
/// exactly its contribution.
pub proof fn lemma_flatten_split(s: Seq<(String, Vec<McpTool>)>, i: int)
    requires
        0 <= i < s.len(),
    ensures
        flatten_tools(s) == flatten_tools(s.take(i)) + s[i].1.deep_view() + flatten_tools(
            s.skip(i + 1),
        ),
        flatten_tools(s.remove(i)) == flatten_tools(s.take(i)) + flatten_tools(s.skip(i + 1)),
    decreases i,
{
    if i == 0 {
        assert(s.take(0) =~= Seq::<(String, Vec<McpTool>)>::empty());
        assert(flatten_tools(s.take(0)) == Seq::<McpToolView>::empty());
        assert(s.skip(1) =~= s.drop_first());
        assert(s.remove(0) =~= s.drop_first());
        assert(flatten_tools(s) == s[0].1.deep_view() + flatten_tools(s.drop_first()));
        assert(flatten_tools(s) =~= flatten_tools(s.take(0)) + s[0].1.deep_view()
            + flatten_tools(s.skip(1)));
        assert(flatten_tools(s.remove(0)) =~= flatten_tools(s.take(0)) + flatten_tools(s.skip(1)));
    } else {
        let d = s.drop_first();
        lemma_flatten_split(d, i - 1);
        assert(d[i - 1] == s[i]);
        assert(d.take(i - 1) =~= s.take(i).drop_first());
        assert(d.skip(i) =~= s.skip(i + 1));
        assert(flatten_tools(s.take(i)) == s.take(i)[0].1.deep_view() + flatten_tools(
            s.take(i).drop_first(),
        ));
        assert(s.take(i)[0] == s[0]);
        assert(flatten_tools(s) == s[0].1.deep_view() + flatten_tools(d));
        assert(flatten_tools(s) =~= flatten_tools(s.take(i)) + s[i].1.deep_view()
            + flatten_tools(s.skip(i + 1)));
        let r = s.remove(i);
        assert(r[0] == s[0]);
        assert(r.drop_first() =~= d.remove(i - 1));
        assert(flatten_tools(r) == s[0].1.deep_view() + flatten_tools(d.remove(i - 1)));
        assert(flatten_tools(r) =~= flatten_tools(s.take(i)) + flatten_tools(s.skip(i + 1)));
    }
}

/// Whether a tool snapshot offers a tool of this name.
pub open spec fn offers(tools: Seq<McpToolView>, tool: Seq<char>) -> bool {
    exists|j: int| 0 <= j < tools.len() && tools[j].name == tool
}

/// Index of the first client whose snapshot offers `tool`, or -1.
pub open spec fn first_offering(s: Seq<(String, Vec<McpTool>)>, tool: Seq<char>) -> int
    decreases s.len(),
{
    if s.len() == 0 {
        -1
    } else if offers(s[0].1.deep_view(), tool) {
        0
    } else {
        let r = first_offering(s.drop_first(), tool);
        if r == -1 {
            -1
        } else {
            r + 1
        }
    }
}

/// Where a tool call goes: the virtual agent-routing tool, the first client
/// that offers it, or nowhere.
#[derive(Debug)]
pub enum ToolRoute {
    Virtual,
    Client { name: String },
    NotFound,
}

/// The federation registry: client name to its tool snapshot, in
/// registration order, names unique.
pub struct McpFederation {
    pub clients: Vec<(String, Vec<McpTool>)>,
}

impl McpFederation {
    pub open spec fn wf(self) -> bool {
        unique_keys(self.clients@)
    }

    /// The tool snapshot registered under `name`.
    pub open spec fn spec_tools(self, name: Seq<char>) -> Option<Seq<McpToolView>> {
        if has_key(self.clients@, name) {
            Some(self.clients@[key_idx(self.clients@, name)].1.deep_view())
        } else {
            None
        }
    }

    pub fn new() -> (r: Self)
        ensures
            r.wf(),
            r.clients@.len() == 0,
    {
        McpFederation { clients: Vec::new() }
    }

    /// Register a client under `name` with its tool snapshot; a client
    /// already registered under that name is replaced in place.
    pub fn register_client(&mut self, name: String, tools: Vec<McpTool>)
        requires
            old(self).wf(),
        ensures
            final(self).wf(),
            final(self).spec_tools(name@) == Some(tools.deep_view()),
            forall|n: Seq<char>|
                n != name@ ==> final(self).spec_tools(n) == old(self).spec_tools(n),
    {
        let found = kv_find(&self.clients, &name);
        let ghost s0 = self.clients@;
        match found {
            Some(i) => {
                let _ = self.clients.remove(i);
                self.clients.insert(i, (name, tools));
                proof {
                    let s1 = self.clients@;
                    assert(s1 =~= s0.update(i as int, s1[i as int]));
                    assert(forall|j: int| 0 <= j < s0.len() ==> s1[j].0@ == s0[j].0@);
                    assert forall|n: Seq<char>| key_idx(s1, n) == key_idx(s0, n) by {
                        lemma_key_idx_same_keys(s1, s0, n);
                    }
                    assert forall|n: Seq<char>|
                        n != s1[i as int].0@ implies self.spec_tools(n) == old(self).spec_tools(
                        n,
                    ) by {
                        lemma_key_idx(s0, n);
                    }
                }
            },
            None => {
                self.clients.push((name, tools));
                proof {
                    let s1 = self.clients@;
                    lemma_unique_push(s0, s1[s0.len() as int]);
                    lemma_key_idx_push(s0, s1[s0.len() as int], s1[s0.len() as int].0@);
                    assert forall|n: Seq<char>|
                        n != s1[s0.len() as int].0@ implies self.spec_tools(n) == old(
                        self,
                    ).spec_tools(n) by {
                        lemma_key_idx_push(s0, s1[s0.len() as int], n);
                        lemma_key_idx(s0, n);
                        if key_idx(s0, n) >= 0 {
                            assert(s1[key_idx(s0, n)] == s0[key_idx(s0, n)]);
                        }
                    }
                }
            },
        }
    }

    /// Unregister the client under `name`. Its tools disappear from the
    /// aggregated surface and every other client keeps its snapshot: the
    /// ensured equation over `flatten_tools` says the removal takes out
    /// exactly the contribution of that one client.
    pub fn unregister_client(&mut self, name: &String)
        requires
            old(self).wf(),
        ensures
            final(self).wf(),
            final(self).spec_tools(name@) is None,
            forall|n: Seq<char>|
                n != name@ ==> final(self).spec_tools(n) == old(self).spec_tools(n),
            match old(self).spec_tools(name@) {
                Some(removed) => {
                    let i = key_idx(old(self).clients@, name@);
                    &&& flatten_tools(old(self).clients@) == flatten_tools(
                        old(self).clients@.take(i),
                    ) + removed + flatten_tools(old(self).clients@.skip(i + 1))
                    &&& flatten_tools(final(self).clients@) == flatten_tools(
                        old(self).clients@.take(i),
                    ) + flatten_tools(old(self).clients@.skip(i + 1))
                },
                None => final(self).clients@ == old(self).clients@,
            },
    {
        let found = kv_find(&self.clients, name);
        let ghost s0 = self.clients@;
        match found {
            Some(i) => {
                let _ = self.clients.remove(i);
                proof {
                    lemma_flatten_split(s0, i as int);
                    assert(self.clients@ == s0.remove(i as int));
                    assert(s0[i as int].0@ == name@);
                    assert(unique_keys(s0));
                    assert forall|n: Seq<char>| n != name@ implies self.spec_tools(n) == old(
                        self,
                    ).spec_tools(n) by {
                        lemma_key_idx_remove(s0, i as int, n);
                        lemma_key_idx(s0, n);
                        let t = s0.remove(i as int);
                        lemma_key_idx(t, n);
                        if key_idx(s0, n) != -1 {
                            assert(t[key_idx(t, n)] == s0[key_idx(s0, n)]);
                            assert(t[key_idx(t, n)].1.deep_view() == s0[key_idx(s0, n)].1.deep_view());
                        } else {
                            assert(key_idx(t, n) == -1);
                        }
                    }
                    crate::kv::lemma_unique_remove(s0, i as int);
                    lemma_key_idx(self.clients@, name@);
                    if key_idx(self.clients@, name@) != -1 {
                        let j = key_idx(self.clients@, name@);
                        if j < i as int {
                            assert(self.clients@[j] == s0[j]);
                            assert(false);
                        } else {
                            assert(self.clients@[j] == s0[j + 1]);
                            assert(false);
                        }
                    }
                }
            },
            None => {},
        }
    }

    /// The aggregated tool surface: the virtual `route_to_agent` tool first,
    /// then every client's tools in registration order.
    pub fn list_all_tools(&self) -> (r: Vec<McpTool>)
        ensures
            r.deep_view().len() == 1 + flatten_tools(self.clients@).len(),
            r.deep_view()[0].name == "route_to_agent"@,
            r.deep_view().skip(1) == flatten_tools(self.clients@),
    {
        let mut out: Vec<McpTool> = Vec::new();
        out.push(route_to_agent_tool());
        let n = self.clients.len();
        let mut i: usize = 0;
        proof {
            assert(self.clients@.take(0) =~= Seq::<(String, Vec<McpTool>)>::empty());
        }
        while i < n
            invariant
                i <= n,
                n == self.clients.len(),
                out.deep_view().len() >= 1,
                out.deep_view()[0].name == "route_to_agent"@,
                out.deep_view().skip(1) == flatten_tools(self.clients@.take(i as int)),
            decreases n - i,
        {
            let ghost pre = out.deep_view();
            let tools = &self.clients[i].1;
            let m = tools.len();
            let mut j: usize = 0;
            while j < m
                invariant
                    j <= m,
                    m == tools@.len(),
                    tools == &self.clients@[i as int].1,
                    i < n,
                    n == self.clients.len(),
                    pre.len() >= 1,
                    pre[0].name == "route_to_agent"@,
                    pre.skip(1) == flatten_tools(self.clients@.take(i as int)),
                    out.deep_view() == pre + tools.deep_view().take(j as int),
                decreases m - j,
            {
                let ghost ov = out@;
                let ghost dv0 = out.deep_view();
                out.push(tools[j].clone());
                proof {
                    assert(dv0 == pre + tools.deep_view().take(j as int));
                    assert(tools.deep_view().len() == m);
                    assert(tools.deep_view().take(j as int).len() == j as int);
                    assert(dv0.len() == ov.len());
                    assert(ov.len() == pre.len() + j as int);
                    assert forall|l: int|
                        0 <= l < out@.len() implies out.deep_view()[l] == (pre
                        + tools.deep_view().take(j as int + 1))[l] by {
                        assert(out.deep_view()[l] == out@[l].deep_view());
                        if l < ov.len() {
                            assert(out@[l] == ov[l]);
                            assert(dv0[l] == ov[l].deep_view());
                            if l >= pre.len() {
                                assert(tools.deep_view().take(j as int)[l - pre.len()]
                                    == tools.deep_view()[l - pre.len()]);
                                assert(tools.deep_view().take(j as int + 1)[l - pre.len()]
                                    == tools.deep_view()[l - pre.len()]);
                            }
                        } else {
                            assert(out@[l]@ == tools@[j as int]@);
                            assert(out@[l].deep_view() == out@[l]@);
                            assert(tools.deep_view().take(j as int + 1)[j as int]
                                == tools.deep_view()[j as int]);
                            assert(tools.deep_view()[j as int] == tools@[j as int].deep_view());
                            assert(tools@[j as int].deep_view() == tools@[j as int]@);
                        }
                    }
                    assert(out.deep_view().len() == (pre + tools.deep_view().take(
                        j as int + 1,
                    )).len());
                    assert(out.deep_view() =~= pre + tools.deep_view().take(j as int + 1));
                }
                j += 1;
            }
            proof {
                assert(tools.deep_view().take(m as int) =~= tools.deep_view());
                lemma_flatten_take_snoc(self.clients@, i as int);
                assert(out.deep_view().skip(1) =~= pre.skip(1) + tools.deep_view());
            }
            i += 1;
        }
        proof {
            assert(self.clients@.take(n as int) =~= self.clients@);
        }
        out
    }

    /// Where a call of `tool_name` goes: the virtual tool is intercepted,
    /// otherwise the first client in registration order whose snapshot
    /// offers the tool takes it.
    pub fn route_tool(&self, tool_name: &String) -> (r: ToolRoute)
        ensures
            tool_name@ == "route_to_agent"@ ==> r is Virtual,
            tool_name@ != "route_to_agent"@ && first_offering(self.clients@, tool_name@) == -1
                ==> r is NotFound,
            tool_name@ != "route_to_agent"@ && first_offering(self.clients@, tool_name@) != -1
                ==> (r matches ToolRoute::Client { name } && name@ == self.clients@[first_offering(
                self.clients@,
                tool_name@,
            )].0@),
    {
        if crate::strutil::str_eq(tool_name.as_str(), "route_to_agent") {
            return ToolRoute::Virtual;
        }
        let n = self.clients.len();
        let mut i: usize = 0;
        while i < n
            invariant
                i <= n,
                n == self.clients.len(),
                tool_name@ != "route_to_agent"@,
                forall|l: int| 0 <= l < i ==> !offers(self.clients@[l].1.deep_view(), tool_name@),
            decreases n - i,
        {
            let tools = &self.clients[i].1;
            let m = tools.len();
            let mut j: usize = 0;
            while j < m
                invariant
                    j <= m,
                    m == tools@.len(),
                    tools == &self.clients@[i as int].1,
                    i < n,
                    n == self.clients.len(),
                    tool_name@ != "route_to_agent"@,
                    forall|l: int|
                        0 <= l < i ==> !offers(self.clients@[l].1.deep_view(), tool_name@),
                    forall|l: int| 0 <= l < j ==> tools.deep_view()[l].name != tool_name@,
                decreases m - j,
            {
                if tools[j].name == *tool_name {
                    proof {
                        assert(tools.deep_view()[j as int] == tools@[j as int].deep_view());
                        assert(tools.deep_view()[j as int].name == tool_name@);
                        assert(offers(self.clients@[i as int].1.deep_view(), tool_name@));
                        lemma_first_offering_is(self.clients@, tool_name@, i as int);
                    }
                    return ToolRoute::Client { name: self.clients[i].0.clone() };
                }
                j += 1;
            }
            proof {
                if offers(tools.deep_view(), tool_name@) {
                    let w = choose|w: int|
                        0 <= w < tools.deep_view().len() && tools.deep_view()[w].name
                            == tool_name@;
                    assert(false);
                }
            }
            i += 1;
        }
        proof {
            lemma_first_offering_none(self.clients@, tool_name@);
        }
        ToolRoute::NotFound
    }
}

/// Flattening one more client appends exactly its tools.
proof fn lemma_flatten_take_snoc(s: Seq<(String, Vec<McpTool>)>, i: int)
    requires
        0 <= i < s.len(),
    ensures
        flatten_tools(s.take(i + 1)) == flatten_tools(s.take(i)) + s[i].1.deep_view(),
    decreases i,
{
    if i == 0 {
        assert(s.take(1)[0] == s[0]);
        assert(s.take(1).drop_first() =~= Seq::<(String, Vec<McpTool>)>::empty());
        assert(s.take(0) =~= Seq::<(String, Vec<McpTool>)>::empty());
        assert(flatten_tools(s.take(1)) =~= flatten_tools(s.take(0)) + s[0].1.deep_view());
    } else {
        lemma_flatten_take_snoc(s.drop_first(), i - 1);
        assert(s.take(i + 1)[0] == s[0]);
        assert(s.take(i + 1).drop_first() =~= s.drop_first().take(i));
        assert(s.take(i)[0] == s[0]);
        assert(s.take(i).drop_first() =~= s.drop_first().take(i - 1));
        assert(s.drop_first()[i - 1] == s[i]);
        assert(flatten_tools(s.take(i + 1)) == s[0].1.deep_view() + flatten_tools(
            s.drop_first().take(i),
        ));
        assert(flatten_tools(s.take(i)) == s[0].1.deep_view() + flatten_tools(
            s.drop_first().take(i - 1),
        ));
        assert(flatten_tools(s.take(i + 1)) =~= flatten_tools(s.take(i)) + s[i].1.deep_view());
    }
}

/// A client that offers the tool, with none before it offering it, is the
/// first offering client.
proof fn lemma_first_offering_is(s: Seq<(String, Vec<McpTool>)>, tool: Seq<char>, i: int)
    requires
        0 <= i < s.len(),
        offers(s[i].1.deep_view(), tool),
        forall|l: int| 0 <= l < i ==> !offers(s[l].1.deep_view(), tool),
    ensures
        first_offering(s, tool) == i,
    decreases s.len(),
{
    if i > 0 {
        assert(forall|l: int| 1 <= l < s.len() ==> s[l] == s.drop_first()[l - 1]);
        lemma_first_offering_is(s.drop_first(), tool, i - 1);
    }
}

/// When no client offers the tool, `first_offering` is -1.
proof fn lemma_first_offering_none(s: Seq<(String, Vec<McpTool>)>, tool: Seq<char>)
    requires
        forall|l: int| 0 <= l < s.len() ==> !offers(s[l].1.deep_view(), tool),
    ensures
        first_offering(s, tool) == -1,
    decreases s.len(),
{
    if s.len() > 0 {
        assert(forall|l: int| 1 <= l < s.len() ==> s[l] == s.drop_first()[l - 1]);
        lemma_first_offering_none(s.drop_first(), tool);
    }
}

/// The virtual tool the federation always offers: hand a task to another
/// agent.
pub fn route_to_agent_tool() -> (t: McpTool)
    ensures
        t@.name == "route_to_agent"@,
        t@.description is Some,
{
    McpTool {
        name: String::from_str("route_to_agent"),
        description: Some(
            String::from_str("Route a task to another specialised agent and return immediately."),
        ),
        input_schema: String::from_str(
            "{\"type\":\"object\",\"properties\":{\"target_agent\":{\"type\":\"string\"},\"message\":{\"type\":\"string\"}},\"required\":[\"target_agent\",\"message\"]}",
        ),
    }
}

} // verus!
