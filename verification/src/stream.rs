//! The accounting stream: Server-Sent-Event pass-through with terminal token
//! metering.
//!
//! Each upstream chunk is forwarded as a data frame while its delta content
//! accumulates; an upstream error becomes an `error` frame without ending
//! the stream; when the upstream ends, the accumulated content is counted
//! and the usage persisted by the caller.

use vstd::prelude::*;

use crate::sse::SseEvent;
use crate::tokens::{bpe_token_count, TokenCounter};

verus! {

/// One upstream frame: its raw JSON text and the delta content it carries,
/// if any.
#[derive(Debug)]
pub struct StreamChunk {
    pub raw: String,
    pub delta_content: Option<String>,
}

/// The meter riding along a stream: the request tokens computed up front and
/// the response content seen so far.
#[derive(Debug)]
pub struct StreamAccumulator {
    pub content: String,
    pub req_tokens: u64,
}

impl StreamAccumulator {
    pub fn new(req_tokens: u64) -> (r: Self)
        ensures
            r.req_tokens == req_tokens,
            r.content@ == Seq::<char>::empty(),
    {
        StreamAccumulator { content: String::new(), req_tokens }
    }

    /// Forward one upstream chunk: its delta content (if any) joins the
    /// accumulator and the raw text goes out as a plain data frame.
    pub fn on_chunk(&mut self, chunk: &StreamChunk) -> (ev: SseEvent)
        ensures
            final(self).req_tokens == old(self).req_tokens,
            final(self).content@ == old(self).content@ + (match chunk.delta_content {
                Some(d) => d@,
                None => Seq::<char>::empty(),
            }),
            ev.event is None,
            ev.id is None,
            ev.data@ == chunk.raw@,
    {
        match &chunk.delta_content {
            Some(d) => {
                self.content.append(d.as_str());
            },
            None => {},
        }
        SseEvent::new(chunk.raw.clone())
    }

    /// An upstream error becomes an `error` frame; the stream itself goes
    /// on, and the accumulator does not move.
    pub fn on_error(&self, message: &String) -> (ev: SseEvent)
        ensures
            ev.event.deep_view() == Some("error"@),
            ev.id is None,
            ev.data@ == message@,
    {
        SseEvent { event: Some(String::from_str("error")), data: message.clone(), id: None }
    }

    /// The upstream ended: the request tokens and the count of everything
    /// accumulated, for the caller to persist.
    pub fn finish(&self) -> (r: (u64, usize))
        ensures
            r.0 == self.req_tokens,
            r.1 as nat == bpe_token_count(self.content@),
    {
        let res_tokens = TokenCounter::count_tokens(self.content.as_str());
        (self.req_tokens, res_tokens)
    }
}

} // verus!
