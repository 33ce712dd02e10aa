//! Per-model circuit breaker.
//!
//! Each logical model id owns a cell that moves between Closed, Open and
//! HalfOpen. Failures increment a counter; reaching the threshold opens the
//! circuit; after the reset timeout the next probe moves it to HalfOpen,
//! where one success closes it again and resets the counter. Time is passed
//! in by the caller as milliseconds of a monotonic clock.

use vstd::prelude::*;

use crate::kv::{
    has_key, key_idx, kv_find, lemma_key_idx, lemma_key_idx_push, lemma_key_idx_same_keys,
    lemma_unique_push, unique_keys,
};

verus! {

#[derive(Clone, Copy, Debug, PartialEq, Eq, Structural)]
pub enum CircuitState {
    Closed,
    Open,
    HalfOpen,
}

/// Health of one model: breaker state, consecutive-failure counter and the
/// stamps of the last failure and success.
#[derive(Clone, Copy, Debug)]
pub struct HealthStats {
    pub state: CircuitState,
    pub failure_count: u32,
    pub last_failure_time: Option<u64>,
    pub last_success_time: Option<u64>,
}

/// The cell a model starts from before any report.
pub open spec fn fresh_cell() -> HealthStats {
    HealthStats {
        state: CircuitState::Closed,
        failure_count: 0,
        last_failure_time: None,
        last_success_time: None,
    }
}

/// Whether a probe is admitted: Closed and HalfOpen always are; Open only
/// once more than `reset` milliseconds have passed since the last failure.
pub open spec fn spec_allowed(h: HealthStats, now: u64, reset: u64) -> bool {
    match h.state {
        CircuitState::Closed => true,
        CircuitState::HalfOpen => true,
        CircuitState::Open => match h.last_failure_time {
            Some(t) => t <= now && now - t > reset,
            None => false,
        },
    }
}

/// The cell after an admission check: an admitted probe on an Open cell
/// moves it to HalfOpen; nothing else changes.
pub open spec fn spec_after_allow(h: HealthStats, now: u64, reset: u64) -> HealthStats {
    if h.state is Open && spec_allowed(h, now, reset) {
        HealthStats { state: CircuitState::HalfOpen, ..h }
    } else {
        h
    }
}

/// The cell after a reported outcome. A success in HalfOpen closes the cell
/// and resets the counter; any failure stamps `last_failure_time`, increments
/// the counter (saturating) and opens the cell once the counter reaches the
/// threshold.
pub open spec fn spec_report(h: HealthStats, is_success: bool, now: u64, threshold: u32) -> HealthStats {
    if is_success {
        if h.state is HalfOpen {
            HealthStats {
                state: CircuitState::Closed,
                failure_count: 0,
                last_success_time: Some(now),
                ..h
            }
        } else {
            HealthStats { last_success_time: Some(now), ..h }
        }
    } else {
        let c: u32 = if h.failure_count < u32::MAX {
            (h.failure_count + 1) as u32
        } else {
            u32::MAX
        };
        HealthStats {
            state: if c >= threshold {
                CircuitState::Open
            } else {
                h.state
            },
            failure_count: c,
            last_failure_time: Some(now),
            ..h
        }
    }
}

/// Process-local breaker registry, one cell per logical model id.
pub struct CircuitBreaker {
    pub failure_threshold: u32,
    pub reset_timeout_ms: u64,
    pub stats: Vec<(String, HealthStats)>,
}

impl CircuitBreaker {
    pub open spec fn wf(self) -> bool {
        unique_keys(self.stats@)
    }

    /// The cell of a model id; an id never reported on has the fresh cell.
    pub open spec fn spec_cell(self, id: Seq<char>) -> HealthStats {
        if has_key(self.stats@, id) {
            self.stats@[key_idx(self.stats@, id)].1
        } else {
            fresh_cell()
        }
    }

    pub fn new(failure_threshold: u32, reset_timeout_ms: u64) -> (cb: Self)
        ensures
            cb.wf(),
            cb.failure_threshold == failure_threshold,
            cb.reset_timeout_ms == reset_timeout_ms,
            forall|id: Seq<char>| cb.spec_cell(id) == fresh_cell(),
    {
        CircuitBreaker { failure_threshold, reset_timeout_ms, stats: Vec::new() }
    }

    /// Index of the cell for `model_id`, creating the fresh cell on first use.
    fn cell_index(&mut self, model_id: &String) -> (i: usize)
        requires
            old(self).wf(),
        ensures
            final(self).wf(),
            final(self).failure_threshold == old(self).failure_threshold,
            final(self).reset_timeout_ms == old(self).reset_timeout_ms,
            i < final(self).stats@.len(),
            i as int == key_idx(final(self).stats@, model_id@),
            final(self).stats@[i as int].0@ == model_id@,
            final(self).spec_cell(model_id@) == old(self).spec_cell(model_id@),
            forall|id: Seq<char>| final(self).spec_cell(id) == old(self).spec_cell(id),
    {
        let found = kv_find(&self.stats, model_id);
        match found {
            Some(i) => i,
            None => {
                let i = self.stats.len();
                let ghost s0 = self.stats@;
                let cell = HealthStats {
                    state: CircuitState::Closed,
                    failure_count: 0,
                    last_failure_time: None,
                    last_success_time: None,
                };
                self.stats.push((model_id.clone(), cell));
                proof {
                    let s1 = self.stats@;
                    lemma_unique_push(s0, s1[i as int]);
                    lemma_key_idx_push(s0, s1[i as int], model_id@);
                    assert(key_idx(s1, model_id@) == i as int);
                    assert(s1[i as int].1 == fresh_cell());
                    assert forall|id: Seq<char>| self.spec_cell(id) == old(self).spec_cell(id) by {
                        lemma_key_idx_push(s0, s1[i as int], id);
                        lemma_key_idx::<HealthStats>(s0, id);
                        if id == model_id@ {
                            assert(key_idx(s1, id) == i as int);
                        } else {
                            if key_idx(s0, id) >= 0 {
                                assert(s1[key_idx(s0, id)] == s0[key_idx(s0, id)]);
                            }
                        }
                    }
                }
                i
            },
        }
    }

    /// Overwrite the cell at a known index, keeping the key in place.
    fn set_cell(&mut self, i: usize, cell: HealthStats)
        requires
            old(self).wf(),
            i < old(self).stats@.len(),
        ensures
            final(self).wf(),
            final(self).failure_threshold == old(self).failure_threshold,
            final(self).reset_timeout_ms == old(self).reset_timeout_ms,
            final(self).stats@ == old(self).stats@.update(
                i as int,
                (old(self).stats@[i as int].0, cell),
            ),
            final(self).spec_cell(old(self).stats@[i as int].0@) == cell,
            forall|id: Seq<char>|
                id != old(self).stats@[i as int].0@ ==> final(self).spec_cell(id) == old(
                    self,
                ).spec_cell(id),
    {
        let ghost s0 = self.stats@;
        let (key, _) = self.stats.remove(i);
        self.stats.insert(i, (key, cell));
        proof {
            assert(self.stats@ =~= s0.update(i as int, (s0[i as int].0, cell)));
            assert(forall|j: int| 0 <= j < s0.len() ==> self.stats@[j].0@ == s0[j].0@);
            assert forall|id: Seq<char>| key_idx(self.stats@, id) == key_idx(s0, id) by {
                lemma_key_idx_same_keys(self.stats@, s0, id);
            }
            assert forall|id: Seq<char>|
                id != s0[i as int].0@ implies final(self).spec_cell(id) == old(self).spec_cell(
                id,
            ) by {
                lemma_key_idx(s0, id);
            }
            lemma_key_idx(s0, s0[i as int].0@);
        }
    }

    /// Whether a request against `model_id` is admitted at time `now`; an
    /// admitted probe on an Open cell moves it to HalfOpen.
    pub fn is_allowed(&mut self, model_id: &String, now: u64) -> (allowed: bool)
        requires
            old(self).wf(),
        ensures
            final(self).wf(),
            final(self).failure_threshold == old(self).failure_threshold,
            final(self).reset_timeout_ms == old(self).reset_timeout_ms,
            allowed == spec_allowed(
                old(self).spec_cell(model_id@),
                now,
                old(self).reset_timeout_ms,
            ),
            final(self).spec_cell(model_id@) == spec_after_allow(
                old(self).spec_cell(model_id@),
                now,
                old(self).reset_timeout_ms,
            ),
            forall|id: Seq<char>|
                id != model_id@ ==> final(self).spec_cell(id) == old(self).spec_cell(id),
    {
        let i = self.cell_index(model_id);
        let h = self.stats[i].1;
        let reset = self.reset_timeout_ms;
        match h.state {
            CircuitState::Closed => true,
            CircuitState::HalfOpen => true,
            CircuitState::Open => {
                match h.last_failure_time {
                    Some(t) => {
                        if t <= now && now - t > reset {
                            self.set_cell(i, HealthStats { state: CircuitState::HalfOpen, ..h });
                            true
                        } else {
                            false
                        }
                    },
                    None => false,
                }
            },
        }
    }

    /// Report the outcome of one upstream call against `model_id`.
    pub fn report_result(&mut self, model_id: &String, is_success: bool, now: u64)
        requires
            old(self).wf(),
        ensures
            final(self).wf(),
            final(self).failure_threshold == old(self).failure_threshold,
            final(self).reset_timeout_ms == old(self).reset_timeout_ms,
            final(self).spec_cell(model_id@) == spec_report(
                old(self).spec_cell(model_id@),
                is_success,
                now,
                old(self).failure_threshold,
            ),
            forall|id: Seq<char>|
                id != model_id@ ==> final(self).spec_cell(id) == old(self).spec_cell(id),
    {
        let i = self.cell_index(model_id);
        let h = self.stats[i].1;
        let threshold = self.failure_threshold;
        let cell = if is_success {
            match h.state {
                CircuitState::HalfOpen => HealthStats {
                    state: CircuitState::Closed,
                    failure_count: 0,
                    last_success_time: Some(now),
                    ..h
                },
                _ => HealthStats { last_success_time: Some(now), ..h },
            }
        } else {
            let c: u32 = if h.failure_count < u32::MAX {
                h.failure_count + 1
            } else {
                u32::MAX
            };
            HealthStats {
                state: if c >= threshold {
                    CircuitState::Open
                } else {
                    h.state
                },
                failure_count: c,
                last_failure_time: Some(now),
                ..h
            }
        };
        self.set_cell(i, cell);
    }
}

/// The cell after a sequence of failures reported at the given times.
pub open spec fn apply_failures(h: HealthStats, times: Seq<u64>, threshold: u32) -> HealthStats
    decreases times.len(),
{
    if times.len() == 0 {
        h
    } else {
        apply_failures(spec_report(h, false, times[0], threshold), times.drop_first(), threshold)
    }
}

/// Consecutive failures accumulate: the counter grows by one per failure
/// (saturating), the last failure is stamped, and the cell is Open exactly
/// when it already was or the counter has reached the threshold.
pub proof fn lemma_failures_accumulate(h: HealthStats, times: Seq<u64>, threshold: u32)
    requires
        times.len() >= 1,
        h.state is Closed || h.state is Open,
    ensures
        apply_failures(h, times, threshold).last_failure_time == Some(times.last()),
        apply_failures(h, times, threshold).failure_count == if h.failure_count + times.len()
            <= u32::MAX {
            h.failure_count + times.len()
        } else {
            u32::MAX as int
        },
        apply_failures(h, times, threshold).state is Open <==> (h.state is Open || (
        if h.failure_count + times.len() <= u32::MAX {
            h.failure_count + times.len()
        } else {
            u32::MAX as int
        }) >= threshold),
        apply_failures(h, times, threshold).state is Open || apply_failures(
            h,
            times,
            threshold,
        ).state is Closed,
    decreases times.len(),
{
    let h1 = spec_report(h, false, times[0], threshold);
    if times.len() == 1 {
        assert(apply_failures(h1, times.drop_first(), threshold) == h1);
    } else {
        lemma_failures_accumulate(h1, times.drop_first(), threshold);
        assert(times.drop_first().last() == times.last());
    }
}

/// The circuit-breaker law: starting from a fresh (Closed, zero-count) cell,
/// `threshold` or more consecutive failures leave the cell Open; a probe is
/// then refused until `reset` milliseconds have passed since the last
/// failure, and admitted once more time than that has passed, which moves
/// the cell to HalfOpen; a success there closes the cell and resets the
/// counter.
pub proof fn lemma_breaker_trips(times: Seq<u64>, threshold: u32, reset: u64, now: u64, t2: u64)
    requires
        1 <= threshold,
        times.len() >= threshold,
    ensures
        ({
            let tripped = apply_failures(fresh_cell(), times, threshold);
            &&& tripped.state is Open
            &&& tripped.last_failure_time == Some(times.last())
            &&& now <= times.last() + reset ==> !spec_allowed(tripped, now, reset)
            &&& now > times.last() + reset ==> spec_allowed(tripped, now, reset)
            &&& now > times.last() + reset ==> spec_after_allow(tripped, now, reset).state
                is HalfOpen
            &&& now > times.last() + reset ==> spec_report(
                spec_after_allow(tripped, now, reset),
                true,
                t2,
                threshold,
            ) == HealthStats {
                state: CircuitState::Closed,
                failure_count: 0,
                last_failure_time: Some(times.last()),
                last_success_time: Some(t2),
            }
        }),
{
    lemma_failures_accumulate(fresh_cell(), times, threshold);
}

} // verus!
