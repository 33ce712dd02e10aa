//! MCP protocol data and the JSON-RPC call discipline.
//!
//! The wire work (child process, pipes, serialisation) lives outside; here
//! are the message shapes, the monotonic request-id assignment, and the
//! pairing of a response to the request it answers. Payloads the gateway
//! does not interpret (params, results, schemas) are carried as raw JSON
//! text.

use vstd::prelude::*;

use crate::errors::GatewayError;

verus! {

/// A JSON-RPC 2.0 request line.
#[derive(Debug)]
pub struct JsonRpcRequest {
    pub jsonrpc: String,
    pub method: String,
    pub params: Option<String>,
    pub id: Option<u64>,
}

#[derive(Debug)]
pub struct JsonRpcError {
    pub code: i64,
    pub message: String,
    pub data: Option<String>,
}

/// A JSON-RPC 2.0 response line.
#[derive(Debug)]
pub struct JsonRpcResponse {
    pub jsonrpc: String,
    pub result: Option<String>,
    pub error: Option<JsonRpcError>,
    pub id: u64,
}

/// A tool a connected MCP server offers. `input_schema` is the raw JSON
/// Schema text.
#[derive(Debug)]
pub struct McpTool {
    pub name: String,
    pub description: Option<String>,
    pub input_schema: String,
}

/// The mathematical contents of a tool descriptor.
pub struct McpToolView {
    pub name: Seq<char>,
    pub description: Option<Seq<char>>,
    pub input_schema: Seq<char>,
}

impl View for McpTool {
    type V = McpToolView;

    open spec fn view(&self) -> McpToolView {
        McpToolView {
            name: self.name@,
            description: match self.description {
                Some(d) => Some(d@),
                None => None,
            },
            input_schema: self.input_schema@,
        }
    }
}

impl DeepView for McpTool {
    type V = McpToolView;

    open spec fn deep_view(&self) -> McpToolView {
        self.view()
    }
}

impl Clone for McpTool {
    fn clone(&self) -> (res: Self)
        ensures
            res@ == self@,
    {
        McpTool {
            name: self.name.clone(),
            description: match &self.description {
                Some(d) => Some(d.clone()),
                None => None,
            },
            input_schema: self.input_schema.clone(),
        }
    }
}

#[derive(Debug)]
pub struct McpResource {
    pub uri: String,
    pub name: String,
    pub description: Option<String>,
    pub mime_type: Option<String>,
}

#[derive(Debug)]
pub struct McpArgument {
    pub name: String,
    pub description: Option<String>,
    pub required: bool,
}

#[derive(Debug)]
pub struct McpPrompt {
    pub name: String,
    pub description: Option<String>,
    pub arguments: Option<Vec<McpArgument>>,
}

/// Server metadata sent with the `initialize` call; `capabilities` is raw
/// JSON text.
#[derive(Debug)]
pub struct McpServerMeta {
    pub name: String,
    pub version: String,
    pub capabilities: String,
}

/// The call discipline of one stdio transport: ids are handed out one at a
/// time, counting up from 1; at most one call is outstanding (the writer and
/// reader hold the transport exclusively); and the ghost histories record
/// every id issued and every exchange completed, in order.
pub struct RpcClientState {
    pub next_id: u64,
    pub outstanding: Option<u64>,
    pub issued: Ghost<Seq<u64>>,
    pub answered: Ghost<Seq<u64>>,
}

impl RpcClientState {
    /// Every issued id is its position plus one; the answered exchanges are
    /// a prefix of the issued calls, followed by the outstanding call if
    /// there is one.
    pub open spec fn wf(self) -> bool {
        &&& self.issued@.len() == self.next_id
        &&& forall|i: int| 0 <= i < self.issued@.len() ==> self.issued@[i] == i + 1
        &&& forall|k: int| 0 <= k < self.answered@.len() ==> self.answered@[k] == k + 1
        &&& self.answered@.len() + (if self.outstanding is Some {
            1int
        } else {
            0
        }) == self.next_id
        &&& (self.outstanding matches Some(v) ==> v == self.next_id)
    }

    pub fn new() -> (st: Self)
        ensures
            st.wf(),
            st.next_id == 0,
            st.outstanding is None,
            st.answered@ == Seq::<u64>::empty(),
    {
        RpcClientState {
            next_id: 0,
            outstanding: None,
            issued: Ghost(Seq::empty()),
            answered: Ghost(Seq::empty()),
        }
    }

    /// Build the next request: the id is one past everything issued before,
    /// and the call becomes the transport's outstanding exchange.
    pub fn next_request(&mut self, method: String, params: Option<String>) -> (req: JsonRpcRequest)
        requires
            old(self).wf(),
            old(self).outstanding is None,
            old(self).next_id < u64::MAX,
        ensures
            final(self).wf(),
            final(self).next_id == old(self).next_id + 1,
            final(self).outstanding == Some(((old(self).next_id + 1) as u64)),
            final(self).issued@ == old(self).issued@.push((old(self).next_id + 1) as u64),
            final(self).answered@ == old(self).answered@,
            req.id == Some(((old(self).next_id + 1) as u64)),
            req.jsonrpc@ == "2.0"@,
            req.method == method,
            req.params == params,
    {
        self.next_id = self.next_id + 1;
        let id = self.next_id;
        self.outstanding = Some(id);
        proof {
            self.issued@ = self.issued@.push(id);
        }
        JsonRpcRequest { jsonrpc: String::from_str("2.0"), method, params, id: Some(id) }
    }

    /// Settle the outstanding call with the line that came back: on success
    /// the exchange joins the completed history at the position of its call,
    /// so responses come back in call order. A response with the wrong id or
    /// a carried error leaves the call unsettled.
    pub fn complete_exchange(&mut self, req: &JsonRpcRequest, resp: JsonRpcResponse) -> (r: Result<
        Option<String>,
        GatewayError,
    >)
        requires
            old(self).wf(),
            old(self).outstanding is Some,
            req.id == old(self).outstanding,
        ensures
            final(self).wf(),
            match r {
                Ok(out) => {
                    &&& resp.id == req.id->0
                    &&& resp.error is None
                    &&& out == resp.result
                    &&& final(self).outstanding is None
                    &&& final(self).answered@ == old(self).answered@.push(req.id->0)
                    &&& final(self).answered@.len() > 0
                    &&& final(self).answered@.last() == final(self).answered@.len()
                },
                Err(_) => *final(self) == *old(self),
            },
    {
        let out = pair_response(req, resp)?;
        self.outstanding = None;
        proof {
            let id = req.id->0;
            self.answered@ = self.answered@.push(id);
        }
        Ok(out)
    }
}

/// The RPC law: ids are issued strictly increasing in call order, and the
/// k-th completed exchange answers exactly the k-th call, so responses come
/// back in call order.
pub proof fn lemma_rpc_ids_in_call_order(st: RpcClientState)
    requires
        st.wf(),
    ensures
        forall|i: int, j: int|
            0 <= i < j < st.issued@.len() ==> st.issued@[i] < st.issued@[j],
        forall|i: int| 0 <= i < st.issued@.len() ==> st.issued@[i] == i + 1,
        forall|k: int| 0 <= k < st.answered@.len() ==> st.answered@[k] == st.issued@[k],
{
}

/// Pair a response with the request it must answer, then read it: a response
/// whose id differs from the request's is refused, a carried error is
/// surfaced, anything else yields the raw result text (absent means null).
pub fn pair_response(req: &JsonRpcRequest, resp: JsonRpcResponse) -> (r: Result<
    Option<String>,
    GatewayError,
>)
    requires
        req.id is Some,
    ensures
        match r {
            Ok(out) => {
                &&& resp.id == req.id->0
                &&& resp.error is None
                &&& out == resp.result
            },
            Err(e) => {
                &&& (resp.id != req.id->0 ==> e == GatewayError::InternalError)
                &&& (resp.id == req.id->0 ==> resp.error is Some && e
                    == GatewayError::UpstreamNonRetryable)
            },
        },
{
    let expected = match req.id {
        Some(v) => v,
        None => 0,
    };
    if resp.id != expected {
        return Err(GatewayError::InternalError);
    }
    match resp.error {
        Some(_) => Err(GatewayError::UpstreamNonRetryable),
        None => Ok(resp.result),
    }
}

} // verus!
