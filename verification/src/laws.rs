//! The laws of the bucket, proved once over its mathematical model.
//!
//! Every consuming operation reports its exact transition on the
//! [`BucketModel`](crate::token_bucket::BucketModel); these proof functions
//! state what follows for whole runs: a burst is bounded by what is available,
//! availability never exceeds the capacity, back-to-back blocking consumption
//! paces at exactly one refresh interval per token, and the observed count
//! predicts the outcome of a consumption at the same instant.

use crate::token_bucket::BucketModel;
use vstd::arithmetic::div_mod::lemma_basic_div;
use vstd::arithmetic::div_mod::lemma_div_by_self;
use vstd::arithmetic::div_mod::lemma_div_is_ordered;
use vstd::arithmetic::div_mod::lemma_div_multiples_vanish;
use vstd::arithmetic::div_mod::lemma_div_plus_one;
use vstd::arithmetic::div_mod::lemma_div_pos_is_pos;
use vstd::arithmetic::mul::lemma_mul_inequality;
use vstd::arithmetic::mul::lemma_mul_is_commutative;
use vstd::arithmetic::mul::lemma_mul_nonnegative;
use vstd::prelude::*;

verus! {

/// Whether `k` consecutive non-blocking consumptions, all issued at the one
/// instant `now`, would every one of them succeed from state `m`.
pub open spec fn bursts(m: BucketModel, now: int, k: nat) -> bool
    decreases k,
{
    k > 0 ==> (m.grants(now) && bursts(m.taken(now), now, (k - 1) as nat))
}

/// The state after `k` back-to-back blocking consumptions from state `m`: the
/// first is issued at the bucket's own virtual timestamp, and each later one
/// at the instant the previous consumption's token accrued (its wake time).
pub open spec fn paced(m: BucketModel, k: nat) -> BucketModel
    decreases k,
{
    if k == 0 {
        m
    } else {
        paced(m, (k - 1) as nat).taken(paced(m, (k - 1) as nat).last_refreshed)
    }
}

/// One whole token is available exactly when a consumption at the same
/// instant would succeed: the observed count predicts the outcome, and
/// observing is read-only, so it cannot alter that outcome.
pub proof fn lemma_available_iff_grants(m: BucketModel, now: int)
    requires
        m.wf(),
    ensures
        m.available(now) >= 1 <==> m.grants(now),
{
    let eff = m.effective_last_refreshed(now);
    if now >= eff {
        if now - eff >= m.refresh_interval {
            lemma_div_is_ordered(m.refresh_interval, now - eff, m.refresh_interval);
            lemma_div_by_self(m.refresh_interval);
        } else {
            lemma_basic_div(now - eff, m.refresh_interval);
        }
    }
}

/// A successful consumption takes exactly one token: at the same instant, one
/// fewer is available afterwards.
pub proof fn lemma_take_decrements_available(m: BucketModel, now: int)
    requires
        m.wf(),
        m.grants(now),
    ensures
        m.taken(now).available(now) == m.available(now) - 1,
{
    let eff = m.effective_last_refreshed(now);
    assert(m.taken(now).effective_last_refreshed(now) == eff + m.refresh_interval);
    lemma_div_plus_one(now - eff - m.refresh_interval, m.refresh_interval);
}

/// Consumption preserves the bucket's structural state.
pub proof fn lemma_take_preserves_wf(m: BucketModel, now: int)
    requires
        m.wf(),
        m.grants(now),
    ensures
        m.taken(now).wf(),
{
}

/// Clamping: at every instant the number of available tokens lies between
/// zero and `max_capacity`, however long the bucket sat idle.
pub proof fn lemma_available_at_most_capacity(m: BucketModel, now: int)
    requires
        m.wf(),
    ensures
        0 <= m.available(now) <= m.max_capacity,
{
    let eff = m.effective_last_refreshed(now);
    lemma_mul_nonnegative(m.refresh_interval, m.max_capacity);
    if now >= eff {
        lemma_div_pos_is_pos(now - eff, m.refresh_interval);
        lemma_div_is_ordered(now - eff, m.max_refresh_duration, m.refresh_interval);
        lemma_div_multiples_vanish(m.max_capacity, m.refresh_interval);
    }
}

/// Bounded burst: consecutive successful consumptions at one instant never
/// exceed the number of tokens available at that instant.
pub proof fn lemma_bounded_burst(m: BucketModel, now: int, k: nat)
    requires
        m.wf(),
        bursts(m, now, k),
    ensures
        k <= m.available(now),
    decreases k,
{
    if k > 0 {
        lemma_take_preserves_wf(m, now);
        lemma_take_decrements_available(m, now);
        lemma_bounded_burst(m.taken(now), now, (k - 1) as nat);
    }
}

/// Clamped burst: at one instant, however long the bucket sat idle, at most
/// `max_capacity` consecutive consumptions succeed.
pub proof fn lemma_clamped_burst(m: BucketModel, now: int, k: nat)
    requires
        m.wf(),
        bursts(m, now, k),
    ensures
        k <= m.max_capacity,
{
    lemma_bounded_burst(m, now, k);
    lemma_available_at_most_capacity(m, now);
}

/// A fresh bucket seeded with `tokens` tokens (its virtual timestamp at the
/// clock origin, the instant of construction reading `refresh_interval *
/// tokens`) has exactly `tokens` tokens available at that instant.
pub proof fn lemma_fresh_available(m: BucketModel, tokens: int)
    requires
        m.wf(),
        m.last_refreshed == 0,
        0 <= tokens <= m.max_capacity,
    ensures
        m.available(m.refresh_interval * tokens) == tokens,
{
    let now = m.refresh_interval * tokens;
    lemma_mul_inequality(tokens, m.max_capacity, m.refresh_interval);
    lemma_mul_is_commutative(tokens, m.refresh_interval);
    lemma_mul_is_commutative(m.max_capacity, m.refresh_interval);
    lemma_mul_nonnegative(m.refresh_interval, tokens);
    assert(m.effective_last_refreshed(now) == 0);
    lemma_div_multiples_vanish(tokens, m.refresh_interval);
}

/// Bounded burst from a fresh bucket: consecutive successful consumptions at
/// the instant of construction never exceed the seeded token count (the
/// clamped minimum of capacity and requested initial tokens).
pub proof fn lemma_bounded_burst_fresh(m: BucketModel, tokens: int, k: nat)
    requires
        m.wf(),
        m.last_refreshed == 0,
        0 <= tokens <= m.max_capacity,
        bursts(m, m.refresh_interval * tokens, k),
    ensures
        k <= tokens,
{
    lemma_bounded_burst(m, m.refresh_interval * tokens, k);
    lemma_fresh_available(m, tokens);
}

/// No drift, one step: for any call instant in the window from the bucket's
/// virtual timestamp to that timestamp plus the accrual ceiling, a
/// consumption advances the virtual timestamp to exactly one refresh interval
/// past its old value — independently of where in the window the instant
/// fell, so sleep overshoot does not shift the schedule.
pub proof fn lemma_take_paces(m: BucketModel, now: int)
    requires
        m.wf(),
        m.last_refreshed <= now <= m.last_refreshed + m.max_refresh_duration,
    ensures
        m.taken(now).last_refreshed == m.last_refreshed + m.refresh_interval,
{
}

/// The state after a blocking consumption at each instant of `nows` in turn,
/// whatever those instants are.
pub open spec fn taken_all(m: BucketModel, nows: Seq<int>) -> BucketModel
    decreases nows.len(),
{
    if nows.len() == 0 {
        m
    } else {
        taken_all(m, nows.drop_last()).taken(nows.last())
    }
}

/// The rate is never exceeded: however the call instants fall — early, late,
/// or with any overshoot — `k` blocking consumptions advance the virtual
/// timestamp by at least `k * refresh_interval`, so in the long run at most
/// one token is granted per interval.
pub proof fn lemma_rate_never_exceeded(m: BucketModel, nows: Seq<int>)
    requires
        m.wf(),
    ensures
        taken_all(m, nows).wf(),
        taken_all(m, nows).refresh_interval == m.refresh_interval,
        taken_all(m, nows).last_refreshed >= m.last_refreshed + nows.len()
            * m.refresh_interval,
    decreases nows.len(),
{
    if nows.len() == 0 {
        assert(nows.len() * m.refresh_interval == 0) by (nonlinear_arith)
            requires
                nows.len() == 0,
        ;
    } else {
        lemma_rate_never_exceeded(m, nows.drop_last());
        assert(nows.len() * m.refresh_interval == (nows.len() - 1) * m.refresh_interval
            + m.refresh_interval) by (nonlinear_arith)
            requires
                nows.len() >= 1,
        ;
    }
}

/// Rate law: `k` back-to-back blocking consumptions, each issued at the
/// previous wake time starting from the bucket's own virtual timestamp (an
/// empty bucket), finish at exactly `k * refresh_interval` past that start.
/// The k-th call wakes at `start + k * refresh_interval`: no faster, and with
/// no accumulated delay.
pub proof fn lemma_rate_law(m: BucketModel, k: nat)
    requires
        m.wf(),
    ensures
        paced(m, k).wf(),
        paced(m, k) == (BucketModel {
            last_refreshed: m.last_refreshed + k * m.refresh_interval,
            ..m
        }),
    decreases k,
{
    lemma_mul_nonnegative(m.refresh_interval, m.max_capacity);
    if k == 0 {
        assert(k * m.refresh_interval == 0) by (nonlinear_arith)
            requires
                k == 0,
        ;
    } else {
        lemma_rate_law(m, (k - 1) as nat);
        let prev = paced(m, (k - 1) as nat);
        lemma_take_paces(prev, prev.last_refreshed);
        assert(k * m.refresh_interval == (k - 1) as nat * m.refresh_interval
            + m.refresh_interval) by (nonlinear_arith)
            requires
                k >= 1,
        ;
    }
}

} // verus!
