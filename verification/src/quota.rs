//! The quota gate: per-minute request counting and the token-quota check.
//!
//! A window is keyed by principal id and minute number. The limiter only
//! counts; the admission decision over the count and the principal's limits
//! is a separate function, and the bound on how many requests one window can
//! admit is proved below.

use vstd::prelude::*;

use crate::auth::User;
use crate::errors::GatewayError;

verus! {

/// One counting window: requests seen from one principal in one minute.
#[derive(Clone, Debug)]
pub struct RateWindow {
    pub user_id: String,
    pub minute: i64,
    pub count: i64,
}

/// Index of the window for `(user, minute)`, or -1.
pub open spec fn window_idx(s: Seq<RateWindow>, user: Seq<char>, minute: i64) -> int
    decreases s.len(),
{
    if s.len() == 0 {
        -1
    } else if s[0].user_id@ == user && s[0].minute == minute {
        0
    } else {
        let r = window_idx(s.drop_first(), user, minute);
        if r == -1 {
            -1
        } else {
            r + 1
        }
    }
}

/// A matching index that everything before it misses is `window_idx`.
proof fn lemma_window_idx_is_first(s: Seq<RateWindow>, user: Seq<char>, minute: i64, i: int)
    requires
        0 <= i < s.len(),
        s[i].user_id@ == user && s[i].minute == minute,
        forall|j: int| 0 <= j < i ==> !(s[j].user_id@ == user && s[j].minute == minute),
    ensures
        window_idx(s, user, minute) == i,
    decreases s.len(),
{
    if i > 0 {
        assert(forall|j: int| 1 <= j < s.len() ==> s[j] == s.drop_first()[j - 1]);
        lemma_window_idx_is_first(s.drop_first(), user, minute, i - 1);
    }
}

/// `window_idx` is either -1 with no matching entry, or a matching index.
proof fn lemma_window_idx(s: Seq<RateWindow>, user: Seq<char>, minute: i64)
    ensures
        window_idx(s, user, minute) == -1 ==> forall|j: int|
            0 <= j < s.len() ==> !(s[j].user_id@ == user && s[j].minute == minute),
        window_idx(s, user, minute) != -1 ==> {
            &&& 0 <= window_idx(s, user, minute) < s.len()
            &&& s[window_idx(s, user, minute)].user_id@ == user
            &&& s[window_idx(s, user, minute)].minute == minute
            &&& forall|j: int|
                0 <= j < window_idx(s, user, minute) ==> !(s[j].user_id@ == user && s[j].minute
                    == minute)
        },
    decreases s.len(),
{
    if s.len() > 0 && !(s[0].user_id@ == user && s[0].minute == minute) {
        lemma_window_idx(s.drop_first(), user, minute);
        assert(forall|j: int| 1 <= j < s.len() ==> s[j] == s.drop_first()[j - 1]);
    }
}

/// Process-local request counter, one window per principal and minute.
pub struct RateLimiter {
    pub windows: Vec<RateWindow>,
}

impl RateLimiter {
    /// The count a window stands at; a window never hit counts zero.
    pub open spec fn spec_count(self, user: Seq<char>, minute: i64) -> int {
        if window_idx(self.windows@, user, minute) >= 0 {
            self.windows@[window_idx(self.windows@, user, minute)].count as int
        } else {
            0
        }
    }

    pub fn new() -> (r: Self)
        ensures
            forall|u: Seq<char>, m: i64| r.spec_count(u, m) == 0,
    {
        RateLimiter { windows: Vec::new() }
    }

    /// Record one request from `user_id` in minute `minute` and return the
    /// window's new count. Counts of other windows do not move.
    pub fn hit(&mut self, user_id: &String, minute: i64) -> (count: i64)
        requires
            old(self).spec_count(user_id@, minute) < i64::MAX,
            old(self).spec_count(user_id@, minute) >= 0,
        ensures
            count == old(self).spec_count(user_id@, minute) + 1,
            final(self).spec_count(user_id@, minute) == count,
            forall|u: Seq<char>, m: i64|
                !(u == user_id@ && m == minute) ==> final(self).spec_count(u, m) == old(
                    self,
                ).spec_count(u, m),
    {
        let ghost s0 = self.windows@;
        let n = self.windows.len();
        let mut i: usize = 0;
        while i < n
            invariant
                i <= n,
                n == self.windows.len(),
                self.windows@ == s0,
                s0 == old(self).windows@,
                old(self).spec_count(user_id@, minute) < i64::MAX,
                old(self).spec_count(user_id@, minute) >= 0,
                forall|j: int|
                    0 <= j < i ==> !(s0[j].user_id@ == user_id@ && s0[j].minute == minute),
            decreases n - i,
        {
            if self.windows[i].user_id == *user_id && self.windows[i].minute == minute {
                proof {
                    lemma_window_idx_is_first(s0, user_id@, minute, i as int);
                    assert(window_idx(s0, user_id@, minute) == i as int);
                    assert(old(self).spec_count(user_id@, minute) == s0[i as int].count as int);
                }
                let c = self.windows[i].count;
                let w = RateWindow { user_id: self.windows[i].user_id.clone(), minute, count: c + 1 };
                self.windows.remove(i);
                self.windows.insert(i, w);
                proof {
                    let s1 = self.windows@;
                    assert(s1 =~= s0.update(i as int, s1[i as int]));
                    assert(s1[i as int].count == c + 1);
                    assert forall|u: Seq<char>, m: i64|
                        !(u == user_id@ && m == minute) implies self.spec_count(u, m) == old(
                        self,
                    ).spec_count(u, m) by {
                        lemma_window_idx_same_shape(s0, s1, u, m);
                        lemma_window_idx(s0, u, m);
                        if window_idx(s0, u, m) >= 0 {
                            assert(window_idx(s0, u, m) != i as int);
                            assert(s1[window_idx(s0, u, m)] == s0[window_idx(s0, u, m)]);
                        }
                    }
                    lemma_window_idx_same_shape(s0, s1, user_id@, minute);
                }
                return c + 1;
            }
            i += 1;
        }
        proof {
            lemma_window_idx(s0, user_id@, minute);
            if window_idx(s0, user_id@, minute) != -1 {
                assert(false);
            }
        }
        let w = RateWindow { user_id: user_id.clone(), minute, count: 1 };
        self.windows.push(w);
        proof {
            let s1 = self.windows@;
            assert(forall|j: int| 0 <= j < s0.len() ==> s1[j] == s0[j]);
            assert(s1[s0.len() as int].user_id@ == user_id@ && s1[s0.len() as int].minute
                == minute);
            lemma_window_idx_is_first(s1, user_id@, minute, s0.len() as int);
            assert forall|u: Seq<char>, m: i64|
                !(u == user_id@ && m == minute) implies self.spec_count(u, m) == old(
                self,
            ).spec_count(u, m) by {
                lemma_window_idx_push_other(s0, s1[s0.len() as int], u, m);
                lemma_window_idx(s0, u, m);
            }
        }
        1
    }
}

/// Two window sequences with the same keys in the same places index alike.
proof fn lemma_window_idx_same_shape(s0: Seq<RateWindow>, s1: Seq<RateWindow>, u: Seq<char>, m: i64)
    requires
        s0.len() == s1.len(),
        forall|j: int|
            0 <= j < s0.len() ==> s0[j].user_id@ == s1[j].user_id@ && s0[j].minute == s1[j].minute,
    ensures
        window_idx(s0, u, m) == window_idx(s1, u, m),
    decreases s0.len(),
{
    if s0.len() > 0 && !(s0[0].user_id@ == u && s0[0].minute == m) {
        assert(forall|j: int| 1 <= j < s0.len() ==> s0[j] == s0.drop_first()[j - 1]);
        assert(forall|j: int| 1 <= j < s1.len() ==> s1[j] == s1.drop_first()[j - 1]);
        lemma_window_idx_same_shape(s0.drop_first(), s1.drop_first(), u, m);
    }
}

/// Appending a window for one key leaves every other key's index unchanged.
proof fn lemma_window_idx_push_other(s: Seq<RateWindow>, e: RateWindow, u: Seq<char>, m: i64)
    requires
        !(e.user_id@ == u && e.minute == m),
    ensures
        window_idx(s.push(e), u, m) == window_idx(s, u, m),
    decreases s.len(),
{
    lemma_window_idx(s, u, m);
    if window_idx(s, u, m) == -1 {
        lemma_window_idx(s.push(e), u, m);
        if window_idx(s.push(e), u, m) != -1 {
            let i = window_idx(s.push(e), u, m);
            if i < s.len() {
                assert(s.push(e)[i] == s[i]);
                assert(false);
            } else {
                assert(s.push(e)[i] == e);
                assert(false);
            }
        }
    } else {
        let i = window_idx(s, u, m);
        assert(s.push(e)[i] == s[i]);
        assert(forall|j: int| 0 <= j < i ==> s.push(e)[j] == s[j]);
        lemma_window_idx(s, u, m);
        lemma_window_idx_is_first(s.push(e), u, m, i);
    }
}

/// The quota gate over one request: the window count just taken, then the
/// token quota. Rejections are exact: over the limit is RpmExceeded, a spent
/// quota is QuotaExhausted, anything else passes.
pub fn limit_gate(user: &User, count: i64) -> (r: Result<(), GatewayError>)
    ensures
        count > user.rpm_limit ==> r == Err::<(), GatewayError>(GatewayError::RpmExceeded),
        count <= user.rpm_limit && user.token_used >= user.token_quota ==> r == Err::<(
        ), GatewayError>(GatewayError::QuotaExhausted),
        count <= user.rpm_limit && user.token_used < user.token_quota ==> r == Ok::<(
        ), GatewayError>(()),
{
    if count > user.rpm_limit {
        Err(GatewayError::RpmExceeded)
    } else if user.token_used >= user.token_quota {
        Err(GatewayError::QuotaExhausted)
    } else {
        Ok(())
    }
}

/// The minute a second-resolution timestamp falls in.
pub fn minute_of(now_seconds: i64) -> (m: i64)
    requires
        now_seconds >= 0,
    ensures
        m == now_seconds / 60,
{
    now_seconds / 60
}

/// Token accounting against a principal: a completed request adds exactly
/// its request plus response tokens to `token_used`, and nothing else moves.
pub fn apply_usage(user: &mut User, req_tokens: i64, res_tokens: i64)
    requires
        req_tokens >= 0,
        res_tokens >= 0,
        old(user).token_used >= 0,
        old(user).token_used + req_tokens + res_tokens <= i64::MAX,
    ensures
        final(user).token_used == old(user).token_used + req_tokens + res_tokens,
        final(user).id == old(user).id,
        final(user).username == old(user).username,
        final(user).api_key == old(user).api_key,
        final(user).status == old(user).status,
        final(user).rpm_limit == old(user).rpm_limit,
        final(user).token_quota == old(user).token_quota,
        final(user).is_admin == old(user).is_admin,
        final(user).created_at == old(user).created_at,
{
    user.token_used = user.token_used + req_tokens + res_tokens;
}

/// Number of admitted requests among the first `n` hits of one window under
/// limit `limit`: the k-th hit sees count k and is admitted when k <= limit.
pub open spec fn num_admitted(n: nat, limit: i64) -> nat
    decreases n,
{
    if n == 0 {
        0
    } else {
        num_admitted((n - 1) as nat, limit) + (if n <= limit {
            1nat
        } else {
            0nat
        })
    }
}

/// The rate-limit law: however many requests a principal sends in one
/// minute, the window admits exactly the first `rpm_limit` of them and never
/// more.
pub proof fn lemma_rpm_window_bound(n: nat, limit: i64)
    ensures
        num_admitted(n, limit) == if limit <= 0 {
            0nat
        } else if n <= limit {
            n
        } else {
            limit as nat
        },
        num_admitted(n, limit) <= if limit >= 0 {
            limit as nat
        } else {
            0nat
        },
    decreases n,
{
    if n > 0 {
        lemma_rpm_window_bound((n - 1) as nat, limit);
    }
}

} // verus!
