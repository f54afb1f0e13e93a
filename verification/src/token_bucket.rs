//! The token bucket and its mathematical model.
//!
//! A bucket holds one virtual timestamp, `last_refreshed`: the moment the
//! bucket was last credited a token, measured in milliseconds on the bucket's
//! own clock (which starts at its `origin` anchor). Tokens accrue continuously
//! as that timestamp recedes into the past; consuming a token advances it by
//! one `refresh_interval`. The ceiling `max_refresh_duration =
//! refresh_interval * max_capacity` bounds how far in the past the effective
//! timestamp may lie, which caps the burst at `max_capacity` tokens.

use crate::clock;
use std::time::Instant;
use vstd::arithmetic::div_mod::lemma_div_decreases;
use vstd::arithmetic::mul::lemma_mul_inequality;
use vstd::arithmetic::mul::lemma_mul_is_commutative;
use vstd::prelude::*;

verus! {

/// The bucket's state as plain mathematical integers, all in milliseconds on
/// the bucket's clock (tokens for `max_capacity`).
pub ghost struct BucketModel {
    /// Virtual time at which the bucket was last credited one token.
    pub last_refreshed: int,
    /// Time to accrue one token; positive.
    pub refresh_interval: int,
    /// `refresh_interval * max_capacity`: ceiling on accrued virtual time.
    pub max_refresh_duration: int,
    /// Ceiling on tokens the bucket can hold while idle.
    pub max_capacity: int,
}

impl BucketModel {
    /// A state every bucket keeps: the rate is positive, the virtual
    /// timestamp never precedes the bucket's clock origin, and the ceiling is
    /// the exact product of rate and capacity.
    pub open spec fn wf(self) -> bool {
        &&& 0 <= self.last_refreshed
        &&& 0 < self.refresh_interval
        &&& 0 <= self.max_capacity
        &&& self.max_refresh_duration == self.refresh_interval * self.max_capacity
    }

    /// `max(last_refreshed, now - max_refresh_duration)`: the virtual time all
    /// accrual math uses. The clamp caps the accrued token count at
    /// `max_capacity`, however long the bucket sat idle.
    pub open spec fn effective_last_refreshed(self, now: int) -> int {
        if self.last_refreshed >= now - self.max_refresh_duration {
            self.last_refreshed
        } else {
            now - self.max_refresh_duration
        }
    }

    /// The virtual time at which the next token is fully accrued; consuming a
    /// token advances `last_refreshed` to exactly this value.
    pub open spec fn next_refreshed(self, now: int) -> int {
        self.effective_last_refreshed(now) + self.refresh_interval
    }

    /// Whether one whole token is available at `now`; a token counts as
    /// available at the instant it fully accrues (`now == next_refreshed`).
    pub open spec fn grants(self, now: int) -> bool {
        now >= self.next_refreshed(now)
    }

    /// The state after one token is consumed at `now`.
    pub open spec fn taken(self, now: int) -> BucketModel {
        BucketModel { last_refreshed: self.next_refreshed(now), ..self }
    }

    /// The number of whole tokens available at `now`:
    /// `floor((now - effective_last_refreshed) / refresh_interval)`, and zero
    /// when the effective timestamp lies ahead of `now` (a consumer that slept
    /// may briefly observe that).
    pub open spec fn available(self, now: int) -> int {
        if now >= self.effective_last_refreshed(now) {
            (now - self.effective_last_refreshed(now)) / self.refresh_interval
        } else {
            0
        }
    }
}

/// The character for one decimal digit.
pub open spec fn digit_char(d: int) -> char {
    if d == 0 {
        '0'
    } else if d == 1 {
        '1'
    } else if d == 2 {
        '2'
    } else if d == 3 {
        '3'
    } else if d == 4 {
        '4'
    } else if d == 5 {
        '5'
    } else if d == 6 {
        '6'
    } else if d == 7 {
        '7'
    } else if d == 8 {
        '8'
    } else {
        '9'
    }
}

/// The decimal digits of `n`, most significant first, without a sign and
/// without leading zeroes (a single `'0'` for zero).
pub open spec fn decimal_digits(n: int) -> Seq<char>
    recommends
        n >= 0,
    decreases n,
{
    if n < 10 {
        seq![digit_char(n)]
    } else {
        decimal_digits(n / 10).push(digit_char(n % 10))
    }
}

/// The one-character string for one decimal digit.
fn digit_str(d: u64) -> (s: &'static str)
    requires
        d < 10,
    ensures
        s@ == seq![digit_char(d as int)],
{
    proof {
        reveal_strlit("0");
        reveal_strlit("1");
        reveal_strlit("2");
        reveal_strlit("3");
        reveal_strlit("4");
        reveal_strlit("5");
        reveal_strlit("6");
        reveal_strlit("7");
        reveal_strlit("8");
        reveal_strlit("9");
    }
    let s: &'static str = if d == 0 {
        "0"
    } else if d == 1 {
        "1"
    } else if d == 2 {
        "2"
    } else if d == 3 {
        "3"
    } else if d == 4 {
        "4"
    } else if d == 5 {
        "5"
    } else if d == 6 {
        "6"
    } else if d == 7 {
        "7"
    } else if d == 8 {
        "8"
    } else {
        "9"
    };
    proof {
        assert(s@ =~= seq![digit_char(d as int)]);
    }
    s
}

/// Appends the decimal rendering of `n` to `out`.
fn push_decimal_digits(out: &mut String, n: u64)
    ensures
        final(out)@ == old(out)@ + decimal_digits(n as int),
    decreases n,
{
    if n < 10 {
        out.append(digit_str(n));
    } else {
        proof {
            lemma_div_decreases(n as int, 10);
        }
        push_decimal_digits(out, n / 10);
        out.append(digit_str(n % 10));
        proof {
            assert(decimal_digits(n as int) =~= decimal_digits(n as int / 10) + seq![
                digit_char(n as int % 10),
            ]);
        }
    }
}

/// Renders `count` in decimal between `TokenBucket(` and `)`.
fn render_token_bucket(count: u64) -> (r: String)
    ensures
        r@ == "TokenBucket("@ + decimal_digits(count as int) + ")"@,
{
    let mut r = String::from_str("TokenBucket(");
    push_decimal_digits(&mut r, count);
    r.append(")");
    r
}

/// A token-bucket rate limiter for single-owner, single-threaded use.
///
/// Created by [`TokenBucket::new`]; mutated only by consuming tokens. The
/// methods taking an explicit `now_ms` are the bucket's whole logic; `now_ms`
/// is a reading of the bucket's clock, as [`TokenBucket::now_ms`] returns it.
/// At the instant of construction the clock reads
/// `refresh_interval_ms * min(max_capacity, initial_capacity)`, so exactly
/// that many tokens appear immediately available.
#[derive(Clone, Copy)]
pub struct TokenBucket {
    /// Anchor of the bucket's millisecond clock on the monotonic clock.
    origin: Instant,
    /// Milliseconds on the bucket's clock; starts at zero.
    last_refreshed: u64,
    /// Milliseconds to accrue one token. Immutable after construction.
    refresh_interval: u64,
    /// `refresh_interval * max_capacity` milliseconds. Immutable.
    max_refresh_duration: u64,
    /// The construction-time capacity, kept to state the invariant.
    max_capacity: Ghost<u64>,
}

impl View for TokenBucket {
    type V = BucketModel;

    closed spec fn view(&self) -> BucketModel {
        BucketModel {
            last_refreshed: self.last_refreshed as int,
            refresh_interval: self.refresh_interval as int,
            max_refresh_duration: self.max_refresh_duration as int,
            max_capacity: self.max_capacity@ as int,
        }
    }
}

impl TokenBucket {
    #[verifier::type_invariant]
    spec fn inv(self) -> bool {
        self@.wf()
    }

    /// The anchor of the bucket's clock; construction fixes it and no
    /// operation moves it.
    pub closed spec fn clock_anchor(self) -> Instant {
        self.origin
    }

    /// Builds a bucket of `max_capacity` tokens, refilled one token per
    /// `refresh_interval_ms`, seeded with `min(max_capacity,
    /// initial_capacity)` tokens (silently clamped).
    ///
    /// Fails when the rate is zero, when `refresh_interval_ms * max_capacity`
    /// overflows the millisecond representation, or when the monotonic clock
    /// is too young to represent the synthetic past timestamp that seeds the
    /// initial tokens (platform-dependent, so success is promised only where
    /// that timestamp is the construction instant itself: a bucket seeded
    /// empty).
    pub fn new(refresh_interval_ms: u64, max_capacity: u64, initial_capacity: u64) -> (r: Option<
        TokenBucket,
    >)
        ensures
            refresh_interval_ms == 0 ==> r is None,
            refresh_interval_ms * max_capacity > u64::MAX ==> r is None,
            refresh_interval_ms > 0 && refresh_interval_ms * max_capacity <= u64::MAX && (
            initial_capacity == 0 || max_capacity == 0) ==> r is Some,
            r matches Some(b) ==> b@ == (BucketModel {
                last_refreshed: 0,
                refresh_interval: refresh_interval_ms as int,
                max_refresh_duration: refresh_interval_ms * max_capacity,
                max_capacity: max_capacity as int,
            }),
            r matches Some(b) ==> b@.wf(),
    {
        if refresh_interval_ms == 0 {
            return None;
        }
        let max_refresh_duration = refresh_interval_ms.checked_mul(max_capacity)?;
        let tokens = if max_capacity < initial_capacity {
            max_capacity
        } else {
            initial_capacity
        };
        proof {
            lemma_mul_inequality(tokens as int, max_capacity as int, refresh_interval_ms as int);
            lemma_mul_is_commutative(tokens as int, refresh_interval_ms as int);
            lemma_mul_is_commutative(max_capacity as int, refresh_interval_ms as int);
            if tokens == 0 {
                assert(refresh_interval_ms * tokens == 0) by (nonlinear_arith)
                    requires
                        tokens == 0,
                ;
            }
        }
        let backdate = refresh_interval_ms * tokens;
        let now = clock::instant_now();
        let origin = clock::instant_sub_ms(&now, backdate)?;
        Some(
            TokenBucket {
                origin,
                last_refreshed: 0,
                refresh_interval: refresh_interval_ms,
                max_refresh_duration,
                max_capacity: Ghost(max_capacity),
            },
        )
    }

    /// A reading of the bucket's clock: whole milliseconds since its anchor.
    /// The value depends on when the call happens, so nothing is promised of
    /// it; every consuming operation is verified for all values of `now_ms`.
    pub fn now_ms(&self) -> u64 {
        clock::millis_since(&self.origin)
    }

    /// The virtual time all accrual math uses: `last_refreshed`, clamped so
    /// that it never lies more than `max_refresh_duration` in the past.
    fn get_effective_last_refreshed(&self, now_ms: u64) -> (e: u64)
        ensures
            e == self@.effective_last_refreshed(now_ms as int),
    {
        proof {
            use_type_invariant(&*self);
        }
        let floor_ms = if now_ms >= self.max_refresh_duration {
            now_ms - self.max_refresh_duration
        } else {
            0
        };
        if self.last_refreshed >= floor_ms {
            self.last_refreshed
        } else {
            floor_ms
        }
    }

    /// The virtual time at which the next token is fully accrued, or `None`
    /// when that time overflows the millisecond representation (in which case
    /// no token can accrue before `u64::MAX`).
    fn get_next_refreshed_time(&self, now_ms: u64) -> (r: Option<u64>)
        ensures
            r matches Some(t) ==> t == self@.next_refreshed(now_ms as int),
            r is None <==> self@.next_refreshed(now_ms as int) > u64::MAX,
    {
        proof {
            use_type_invariant(&*self);
        }
        let effective_last_refreshed = self.get_effective_last_refreshed(now_ms);
        effective_last_refreshed.checked_add(self.refresh_interval)
    }

    /// Attempts to consume one token at `now_ms` without waiting.
    ///
    /// Succeeds if and only if one whole token is available at `now_ms`
    /// (success at the exact instant the token accrues); on success the
    /// virtual clock advances by exactly one `refresh_interval`, which keeps
    /// the long-run rate at one token per interval. A failed attempt leaves
    /// the bucket unchanged.
    pub fn try_take_at(&mut self, now_ms: u64) -> (r: Option<()>)
        ensures
            r is Some <==> old(self)@.grants(now_ms as int),
            r is Some ==> final(self)@ == old(self)@.taken(now_ms as int),
            r is None ==> final(self)@ == old(self)@,
            final(self).clock_anchor() == old(self).clock_anchor(),
            final(self)@.wf(),
    {
        proof {
            use_type_invariant(&*self);
        }
        let next = match self.get_next_refreshed_time(now_ms) {
            Some(t) => t,
            None => {
                return None;
            },
        };
        if now_ms >= next {
            self.last_refreshed = next;
            Some(())
        } else {
            None
        }
    }

    /// Attempts to consume one token at the current reading of the bucket's
    /// clock, without waiting. What that reading is cannot be promised, so the
    /// contract holds for whatever value the clock handed back.
    pub fn try_take(&mut self) -> (r: Option<()>)
        ensures
            exists|now_ms: u64|
                {
                    &&& (r is Some <==> old(self)@.grants(now_ms as int))
                    &&& (r is Some ==> final(self)@ == old(self)@.taken(now_ms as int))
                },
            r is None ==> final(self)@ == old(self)@,
            final(self).clock_anchor() == old(self).clock_anchor(),
            final(self)@.wf(),
    {
        let now_ms = clock::millis_since(&self.origin);
        let r = self.try_take_at(now_ms);
        proof {
            assert((r is Some <==> old(self)@.grants(now_ms as int)) && (r is Some
                ==> final(self)@ == old(self)@.taken(now_ms as int)));
        }
        r
    }

    /// Consumes one token at `now_ms` unconditionally, reporting how many
    /// milliseconds remain until the consumed token is fully accrued: zero
    /// when one was already available, and at most one `refresh_interval`
    /// whenever `last_refreshed` has not run ahead of `now_ms`. A blocking
    /// consumer sleeps exactly that long.
    ///
    /// The wait is computed from the same effective timestamp the state is
    /// advanced to, before any sleeping happens, so back-to-back calls pace at
    /// exactly one `refresh_interval` each: sleep overshoot does not
    /// accumulate into subsequent intervals.
    ///
    /// Fails, leaving the bucket unchanged, only when the accrual time
    /// overflows the millisecond representation.
    pub fn take_at(&mut self, now_ms: u64) -> (r: Option<u64>)
        ensures
            r is Some <==> old(self)@.next_refreshed(now_ms as int) <= u64::MAX,
            r matches Some(wait_ms) ==> {
                &&& final(self)@ == old(self)@.taken(now_ms as int)
                &&& wait_ms == (if old(self)@.grants(now_ms as int) {
                    0int
                } else {
                    old(self)@.next_refreshed(now_ms as int) - now_ms
                })
                &&& (old(self)@.last_refreshed <= now_ms ==> wait_ms
                    <= old(self)@.refresh_interval)
            },
            r is None ==> final(self)@ == old(self)@,
            final(self).clock_anchor() == old(self).clock_anchor(),
            final(self)@.wf(),
    {
        proof {
            use_type_invariant(&*self);
        }
        let next = match self.get_next_refreshed_time(now_ms) {
            Some(t) => t,
            None => {
                return None;
            },
        };
        let wait_ms: u64 = if now_ms >= next {
            0
        } else {
            next - now_ms
        };
        self.last_refreshed = next;
        Some(wait_ms)
    }

    /// The number of whole tokens available at `now_ms`. Read-only: observing
    /// the count never alters the bucket.
    pub fn available_at(&self, now_ms: u64) -> (n: u64)
        ensures
            n == self@.available(now_ms as int),
            self@.wf(),
    {
        proof {
            use_type_invariant(&*self);
        }
        let effective_last_refreshed = self.get_effective_last_refreshed(now_ms);
        if now_ms >= effective_last_refreshed {
            (now_ms - effective_last_refreshed) / self.refresh_interval
        } else {
            0
        }
    }

    /// A human-readable form of the bucket at `now_ms`: the word-tag
    /// `TokenBucket` around the current whole-token count. Read-only.
    pub fn debug_at(&self, now_ms: u64) -> (s: String)
        ensures
            s@ == "TokenBucket("@ + decimal_digits(self@.available(now_ms as int)) + ")"@,
    {
        render_token_bucket(self.available_at(now_ms))
    }

    /// A human-readable form of the bucket at the current reading of its
    /// clock. Read-only: rendering never alters the outcome of a following
    /// consumption at the same instant.
    pub fn debug(&self) -> (s: String)
        ensures
            exists|now_ms: u64|
                s@ == "TokenBucket("@ + decimal_digits(self@.available(now_ms as int)) + ")"@,
    {
        let now_ms = clock::millis_since(&self.origin);
        let s = self.debug_at(now_ms);
        proof {
            assert(s@ == "TokenBucket("@ + decimal_digits(self@.available(now_ms as int)) + ")"@);
        }
        s
    }
}

} // verus!
