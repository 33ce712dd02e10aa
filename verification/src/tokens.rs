//! The token meter: BPE token counting over texts and message lists.
//!
//! The tokeniser itself is tiktoken's cl100k table; its count is named
//! `bpe_token_count` and everything else is stated and proved against that
//! name.

use vstd::prelude::*;

use crate::chat::{ChatMessage, ChatMessageView};

verus! {

/// What the cl100k tokeniser counts for a text. A function of the text
/// alone.
pub uninterp spec fn bpe_token_count(s: Seq<char>) -> nat;

/// Relies on tiktoken_rs::cl100k_base and CoreBPE::encode_with_special_tokens:
/// the token count of a text, a function of the text alone (zero should the
/// embedded table fail to load).
#[verifier::external_body]
fn bpe_count(text: &str) -> (r: usize)
    ensures
        r as nat == bpe_token_count(text@),
{
    tiktoken_rs::cl100k_base()
        .map(|bpe| bpe.encode_with_special_tokens(text).len())
        .unwrap_or(0)
}

/// The concatenated contents of a message list: what the meter counts.
pub open spec fn concat_contents(msgs: Seq<ChatMessageView>) -> Seq<char>
    decreases msgs.len(),
{
    if msgs.len() == 0 {
        Seq::empty()
    } else {
        (match msgs[0].content {
            Some(c) => c,
            None => Seq::empty(),
        }) + concat_contents(msgs.drop_first())
    }
}

/// Concatenating one more message appends its content.
proof fn lemma_concat_take_snoc(msgs: Seq<ChatMessageView>, i: int)
    requires
        0 <= i < msgs.len(),
    ensures
        concat_contents(msgs.take(i + 1)) == concat_contents(msgs.take(i)) + (match msgs[i].content {
            Some(c) => c,
            None => Seq::<char>::empty(),
        }),
    decreases i,
{
    if i == 0 {
        assert(msgs.take(1)[0] == msgs[0]);
        assert(msgs.take(1).drop_first() =~= Seq::<ChatMessageView>::empty());
        assert(msgs.take(0) =~= Seq::<ChatMessageView>::empty());
        assert(concat_contents(msgs.take(1)) =~= concat_contents(msgs.take(0)) + (
        match msgs[0].content {
            Some(c) => c,
            None => Seq::<char>::empty(),
        }));
    } else {
        lemma_concat_take_snoc(msgs.drop_first(), i - 1);
        assert(msgs.take(i + 1)[0] == msgs[0]);
        assert(msgs.take(i + 1).drop_first() =~= msgs.drop_first().take(i));
        assert(msgs.take(i)[0] == msgs[0]);
        assert(msgs.take(i).drop_first() =~= msgs.drop_first().take(i - 1));
        assert(msgs.drop_first()[i - 1] == msgs[i]);
        assert(concat_contents(msgs.take(i + 1)) =~= concat_contents(msgs.take(i)) + (
        match msgs[i].content {
            Some(c) => c,
            None => Seq::<char>::empty(),
        }));
    }
}

/// The token meter.
pub struct TokenCounter;

impl TokenCounter {
    /// BPE token count of one text.
    pub fn count_tokens(text: &str) -> (r: usize)
        ensures
            r as nat == bpe_token_count(text@),
    {
        bpe_count(text)
    }

    /// BPE token count of a message list: the contents concatenated, then
    /// counted. Messages without text contribute nothing.
    pub fn count_messages_tokens(messages: &Vec<ChatMessage>) -> (r: usize)
        ensures
            r as nat == bpe_token_count(concat_contents(messages.deep_view())),
    {
        let ghost ms = messages.deep_view();
        let mut full = String::new();
        let n = messages.len();
        let mut i: usize = 0;
        proof {
            assert(ms.take(0) =~= Seq::<ChatMessageView>::empty());
            assert(concat_contents(ms.take(0)) =~= Seq::<char>::empty());
        }
        while i < n
            invariant
                i <= n,
                n == messages@.len(),
                ms == messages.deep_view(),
                full@ == concat_contents(ms.take(i as int)),
            decreases n - i,
        {
            proof {
                assert(ms[i as int] == messages@[i as int].deep_view());
            }
            match &messages[i].content {
                Some(c) => {
                    full.append(c.as_str());
                },
                None => {},
            }
            proof {
                lemma_concat_take_snoc(ms, i as int);
            }
            i += 1;
        }
        proof {
            assert(ms.take(n as int) =~= ms);
        }
        bpe_count(full.as_str())
    }
}

/// Saturating addition over u64, for token accumulators.
pub fn add_sat_u64(a: u64, b: u64) -> (r: u64)
    ensures
        r == if a + b <= u64::MAX {
            a + b
        } else {
            u64::MAX as int
        },
{
    if b > u64::MAX - a {
        u64::MAX
    } else {
        a + b
    }
}

} // verus!
