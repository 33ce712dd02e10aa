//! Fallback chains: the ordered candidates one request may try.
//!
//! The store hands back the fallback model ids of a primary, already ordered
//! by ascending priority. The chain starts at the primary and appends each
//! candidate it has not seen yet, so no model id is tried more than once per
//! request however the rules are configured (cycles included).

use vstd::prelude::*;

use crate::strutil::contains_string;

verus! {

/// One stored fallback rule.
#[derive(Clone, Debug)]
pub struct FallbackConfig {
    pub primary_model_id: String,
    pub fallback_model_id: String,
    pub priority: i32,
    pub trigger_condition: String,
}

/// The chain `acc` grows into when the candidates in `rest` are appended in
/// order, skipping any id already present.
pub open spec fn chain_spec(acc: Seq<Seq<char>>, rest: Seq<Seq<char>>) -> Seq<Seq<char>>
    decreases rest.len(),
{
    if rest.len() == 0 {
        acc
    } else if acc.contains(rest[0]) {
        chain_spec(acc, rest.drop_first())
    } else {
        chain_spec(acc.push(rest[0]), rest.drop_first())
    }
}

/// Processing candidates in two batches is the same as in one.
proof fn lemma_chain_append(acc: Seq<Seq<char>>, a: Seq<Seq<char>>, b: Seq<Seq<char>>)
    ensures
        chain_spec(acc, a + b) == chain_spec(chain_spec(acc, a), b),
    decreases a.len(),
{
    if a.len() == 0 {
        assert(a + b =~= b);
    } else {
        assert((a + b)[0] == a[0]);
        assert((a + b).drop_first() =~= a.drop_first() + b);
        if acc.contains(a[0]) {
            lemma_chain_append(acc, a.drop_first(), b);
        } else {
            lemma_chain_append(acc.push(a[0]), a.drop_first(), b);
        }
    }
}

/// The chain keeps what the accumulator already holds.
proof fn lemma_chain_extends(acc: Seq<Seq<char>>, rest: Seq<Seq<char>>)
    ensures
        acc.len() <= chain_spec(acc, rest).len(),
        forall|i: int| 0 <= i < acc.len() ==> chain_spec(acc, rest)[i] == acc[i],
    decreases rest.len(),
{
    if rest.len() > 0 {
        if acc.contains(rest[0]) {
            lemma_chain_extends(acc, rest.drop_first());
        } else {
            lemma_chain_extends(acc.push(rest[0]), rest.drop_first());
            assert(forall|i: int| 0 <= i < acc.len() ==> acc.push(rest[0])[i] == acc[i]);
        }
    }
}

/// The law the chain is built for: when the accumulator has no duplicates,
/// neither has the finished chain — no model id is tried twice per request.
pub proof fn lemma_chain_no_dup(acc: Seq<Seq<char>>, rest: Seq<Seq<char>>)
    requires
        forall|i: int, j: int| 0 <= i < j < acc.len() ==> acc[i] != acc[j],
    ensures
        forall|i: int, j: int|
            0 <= i < j < chain_spec(acc, rest).len() ==> chain_spec(acc, rest)[i] != chain_spec(
                acc,
                rest,
            )[j],
    decreases rest.len(),
{
    if rest.len() > 0 {
        if acc.contains(rest[0]) {
            assert(chain_spec(acc, rest) == chain_spec(acc, rest.drop_first()));
            lemma_chain_no_dup(acc, rest.drop_first());
        } else {
            assert(chain_spec(acc, rest) == chain_spec(acc.push(rest[0]), rest.drop_first()));
            assert forall|i: int, j: int|
                0 <= i < j < acc.push(rest[0]).len() implies acc.push(rest[0])[i] != acc.push(
                rest[0],
            )[j] by {
                if j == acc.len() {
                    assert(acc.push(rest[0])[j] == rest[0]);
                    assert(acc.push(rest[0])[i] == acc[i]);
                    if acc[i] == rest[0] {
                        assert(acc.contains(rest[0]));
                    }
                }
            }
            lemma_chain_no_dup(acc.push(rest[0]), rest.drop_first());
        }
    }
}

/// Everything in the chain came from the accumulator or the candidates, and
/// every candidate is in the chain.
pub proof fn lemma_chain_membership(acc: Seq<Seq<char>>, rest: Seq<Seq<char>>)
    ensures
        forall|i: int|
            0 <= i < chain_spec(acc, rest).len() ==> acc.contains(chain_spec(acc, rest)[i])
                || rest.contains(chain_spec(acc, rest)[i]),
        forall|k: int| 0 <= k < rest.len() ==> chain_spec(acc, rest).contains(rest[k]),
        forall|i: int| 0 <= i < acc.len() ==> chain_spec(acc, rest).contains(acc[i]),
    decreases rest.len(),
{
    lemma_chain_extends(acc, rest);
    if rest.len() > 0 {
        let acc1 = if acc.contains(rest[0]) {
            acc
        } else {
            acc.push(rest[0])
        };
        assert(chain_spec(acc, rest) == chain_spec(acc1, rest.drop_first()));
        lemma_chain_membership(acc1, rest.drop_first());
        lemma_chain_extends(acc1, rest.drop_first());
        assert forall|k: int| 0 <= k < rest.len() implies chain_spec(acc, rest).contains(
            rest[k],
        ) by {
            if k == 0 {
                if acc.contains(rest[0]) {
                    let w = choose|w: int| 0 <= w < acc.len() && acc[w] == rest[0];
                    assert(chain_spec(acc1, rest.drop_first())[w] == rest[0]);
                } else {
                    assert(acc1[acc.len() as int] == rest[0]);
                    assert(chain_spec(acc1, rest.drop_first())[acc.len() as int] == rest[0]);
                }
            } else {
                assert(rest.drop_first()[k - 1] == rest[k]);
                assert(chain_spec(acc1, rest.drop_first()).contains(rest.drop_first()[k - 1]));
            }
        }
        assert forall|i: int|
            0 <= i < chain_spec(acc, rest).len() implies acc.contains(chain_spec(acc, rest)[i])
            || rest.contains(chain_spec(acc, rest)[i]) by {
            let x = chain_spec(acc, rest)[i];
            assert(chain_spec(acc1, rest.drop_first())[i] == x);
            if acc1.contains(x) {
                let w = choose|w: int| 0 <= w < acc1.len() && acc1[w] == x;
                if w < acc.len() {
                    assert(acc[w] == x);
                } else {
                    assert(x == rest[0]);
                }
            } else {
                let w = choose|w: int| 0 <= w < rest.drop_first().len() && rest.drop_first()[w] == x;
                assert(rest[w + 1] == x);
            }
        }
    }
}

/// Build the candidate chain for one request: the primary first, then each
/// fallback id (already ordered by priority) that has not appeared yet.
pub fn fallback_chain(primary: &String, fallbacks: &Vec<String>) -> (chain: Vec<String>)
    ensures
        chain.deep_view() == chain_spec(seq![primary@], fallbacks.deep_view()),
        chain.deep_view().len() >= 1,
        chain.deep_view()[0] == primary@,
        // No model id is tried more than once per request.
        forall|i: int, j: int|
            0 <= i < j < chain.deep_view().len() ==> chain.deep_view()[i] != chain.deep_view()[j],
        // Nothing beyond the primary and the configured fallbacks is tried.
        forall|i: int|
            0 <= i < chain.deep_view().len() ==> chain.deep_view()[i] == primary@
                || fallbacks.deep_view().contains(chain.deep_view()[i]),
        // Every configured fallback is tried.
        forall|k: int|
            0 <= k < fallbacks.deep_view().len() ==> chain.deep_view().contains(
                fallbacks.deep_view()[k],
            ),
{
    let ghost init = seq![primary@];
    let ghost fs = fallbacks.deep_view();
    let mut chain: Vec<String> = Vec::new();
    chain.push(primary.clone());
    assert(chain.deep_view() =~= init);
    let n = fallbacks.len();
    let mut i: usize = 0;
    while i < n
        invariant
            i <= n,
            n == fallbacks.len(),
            fs == fallbacks.deep_view(),
            init == seq![primary@],
            chain.deep_view() == chain_spec(init, fs.take(i as int)),
        decreases n - i,
    {
        let ghost pre = chain.deep_view();
        let ghost x = fs[i as int];
        proof {
            assert(fallbacks.deep_view()[i as int] == fallbacks@[i as int]@);
        }
        let dup = contains_string(&chain, &fallbacks[i]);
        if !dup {
            chain.push(fallbacks[i].clone());
            assert(chain.deep_view() =~= pre.push(x));
        }
        proof {
            let single = seq![x];
            assert(fs.take(i as int + 1) =~= fs.take(i as int) + single);
            lemma_chain_append(init, fs.take(i as int), single);
            assert(single[0] == x);
            assert(single.drop_first().len() == 0);
            if pre.contains(x) {
                assert(chain_spec(pre, single) == chain_spec(pre, single.drop_first()));
                assert(chain_spec(pre, single.drop_first()) == pre);
            } else {
                assert(chain_spec(pre, single) == chain_spec(pre.push(x), single.drop_first()));
                assert(chain_spec(pre.push(x), single.drop_first()) == pre.push(x));
            }
        }
        i += 1;
    }
    proof {
        assert(fs.take(n as int) =~= fs);
        lemma_chain_no_dup(init, fs);
        lemma_chain_membership(init, fs);
        assert forall|i2: int|
            0 <= i2 < chain.deep_view().len() implies chain.deep_view()[i2] == primary@
            || fs.contains(chain.deep_view()[i2]) by {
            if init.contains(chain.deep_view()[i2]) {
                assert(init[0] == primary@);
            }
        }
        lemma_chain_extends(init, fs);
        assert(init[0] == primary@);
        assert(chain.deep_view()[0] == primary@);
    }
    chain
}

} // verus!
