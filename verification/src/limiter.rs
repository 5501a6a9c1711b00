//! Token-bucket rate limiter with a trailing accept-ratio estimate.
//!
//! The limiter owns a bucket of at most `max_tokens` tokens that is refilled
//! on a fixed interval, together with a nine-slot history of per-second
//! accept ratios.  Each call hands in the current clock reading, consumes
//! tokens if enough are available, and reports the smoothed accept ratio over
//! the nine closed windows plus the window in progress.

use crate::time_point::TimePoint;
use crate::tools::{Rate, RATE_SCALE};
use vstd::arithmetic::div_mod::{lemma_div_basics, lemma_div_is_ordered, lemma_div_multiples_vanish};
use vstd::prelude::*;

verus! {

/// Nanoseconds in one accounting window (one second).
pub const NANOS_PER_SEC: u64 = 1_000_000_000;

/// Number of closed one-second windows whose accept ratios are remembered.
pub const HISTORY_WINDOWS: usize = 9;

/// Outcome of one limiter call.
#[derive(Clone, Copy, Debug, PartialEq, Eq, Structural)]
pub struct LimitResult {
    /// Whether the requested tokens were granted.
    pub allowed: bool,
    /// Average accept ratio over the nine closed windows and the window in
    /// progress.
    pub effective_rate: Rate,
}

/// Mathematical state of a limiter: every count as an unbounded integer and
/// the history as a sequence of fixed-point ratios.
#[verifier::ext_equal]
pub ghost struct LimiterModel {
    pub num_tokens: int,
    pub max_tokens: int,
    pub refresh_interval: int,
    pub tokens_per_refresh: int,
    pub next_refresh: int,
    pub previous_rates: Seq<int>,
    pub previous_rates_sum: int,
    pub current_period: int,
    pub num_allowed: int,
    pub num_requested: int,
}

/// Sum of a sequence of fixed-point ratios.
pub open spec fn sum_rates(s: Seq<int>) -> int
    decreases s.len(),
{
    if s.len() == 0 {
        0
    } else {
        s[0] + sum_rates(s.drop_first())
    }
}

impl LimiterModel {
    /// State invariant: nine ratio slots, each between zero and one, a sum
    /// field that caches their sum, a bucket within its capacity and counters
    /// that never report more grants than requests.
    pub open spec fn wf(self) -> bool {
        &&& self.previous_rates.len() == HISTORY_WINDOWS
        &&& forall|i: int|
            0 <= i < self.previous_rates.len() ==> 0 <= #[trigger] self.previous_rates[i]
                <= RATE_SCALE
        &&& self.previous_rates_sum == sum_rates(self.previous_rates)
        &&& 0 <= self.num_tokens <= self.max_tokens
        &&& 0 <= self.num_allowed <= self.num_requested
        &&& self.refresh_interval >= 1
        &&& self.tokens_per_refresh >= 0
        &&& self.next_refresh >= 0
        &&& self.current_period >= 0
    }
}

/// Accept ratio of a window in fixed point; a window that saw no request
/// counts as fully accepting.
pub open spec fn spec_window_rate(num_allowed: int, num_requested: int) -> int {
    if num_requested > 0 {
        num_allowed * (RATE_SCALE as int) / num_requested
    } else {
        RATE_SCALE as int
    }
}

/// Number of whole seconds between the start of the current window and `now`.
pub open spec fn spec_roll_intervals(m: LimiterModel, now: int) -> int {
    (now - m.current_period) / (NANOS_PER_SEC as int)
}

/// The history after `intervals` whole seconds have passed, where `cur` is
/// the accept ratio of the window that just closed.  A long gap resets every
/// slot but the newest to fully accepting and discards `cur`; a short gap
/// shifts the history deeper by `intervals`, records `cur` as the
/// newest-but-`intervals` slot and treats entirely skipped windows as fully
/// accepting, except that the slot just before the recorded one keeps its
/// previous value.
pub open spec fn spec_rolled_rates(rates: Seq<int>, cur: int, intervals: int) -> Seq<int> {
    if intervals >= rates.len() {
        Seq::new(
            rates.len(),
            |i: int|
                if i == 0 {
                    rates[0]
                } else {
                    RATE_SCALE as int
                },
        )
    } else {
        Seq::new(
            rates.len(),
            |i: int|
                if i == intervals - 1 {
                    cur
                } else if i == intervals - 2 {
                    rates[i]
                } else if i < intervals - 2 {
                    RATE_SCALE as int
                } else {
                    rates[i - intervals]
                },
        )
    }
}

/// Roll the one-second window: if at least one whole second has passed since
/// the start of the current window, fold the in-progress counters into the
/// history, reset them and start a new window at `now`.
pub open spec fn spec_rolled(m: LimiterModel, now: int) -> LimiterModel {
    let intervals = spec_roll_intervals(m, now);
    if intervals <= 0 {
        m
    } else {
        let rates = spec_rolled_rates(
            m.previous_rates,
            spec_window_rate(m.num_allowed, m.num_requested),
            intervals,
        );
        LimiterModel {
            previous_rates: rates,
            previous_rates_sum: sum_rates(rates),
            num_allowed: 0,
            num_requested: 0,
            current_period: now,
            ..m
        }
    }
}

/// Count one more request in the window in progress.
pub open spec fn spec_counted(m: LimiterModel) -> LimiterModel {
    LimiterModel { num_requested: m.num_requested + 1, ..m }
}

/// Number of refresh intervals that `now` has reached, counting the one that
/// became due at `next_refresh` itself.
pub open spec fn spec_refill_intervals(m: LimiterModel, now: int) -> int {
    if now >= m.next_refresh {
        (now - m.next_refresh) / m.refresh_interval + 1
    } else {
        0
    }
}

/// Refill the bucket: once the next refresh instant has passed, the token
/// count is set (not increased) to the refilled amount, capped at capacity,
/// and the next refresh instant moves past `now`.
pub open spec fn spec_refilled(m: LimiterModel, now: int) -> LimiterModel {
    let intervals = spec_refill_intervals(m, now);
    if intervals <= 0 {
        m
    } else {
        let refilled = intervals * m.tokens_per_refresh;
        LimiterModel {
            next_refresh: m.next_refresh + intervals * m.refresh_interval,
            num_tokens: if refilled > m.max_tokens {
                m.max_tokens
            } else {
                refilled
            },
            ..m
        }
    }
}

/// Grant the requested tokens if the bucket holds enough; the second
/// component says whether it did.
pub open spec fn spec_decided(m: LimiterModel, requested: int) -> (LimiterModel, bool) {
    if m.num_tokens >= requested {
        (
            LimiterModel {
                num_allowed: m.num_allowed + 1,
                num_tokens: m.num_tokens - requested,
                ..m
            },
            true,
        )
    } else {
        (m, false)
    }
}

/// One whole limiter call at clock reading `now`: roll the window, count the
/// request, refill the bucket, then decide.
pub open spec fn spec_step(m: LimiterModel, now: int, requested: int) -> (LimiterModel, bool) {
    spec_decided(spec_refilled(spec_counted(spec_rolled(m, now)), now), requested)
}

/// Smoothed accept ratio of a state: the average of the nine closed windows
/// and the window in progress.
pub open spec fn spec_effective_rate(m: LimiterModel) -> int {
    (m.previous_rates_sum + spec_window_rate(m.num_allowed, m.num_requested)) / (
    m.previous_rates.len() + 1) as int
}

/// Token-bucket rate limiter; see the module documentation.
pub struct Limiter {
    num_tokens: u64,
    max_tokens: u64,
    refresh_interval: u64,
    tokens_per_refresh: u64,
    next_refresh: u64,
    previous_rates: Vec<u64>,
    previous_rates_sum: u64,
    current_period: u64,
    num_allowed: u64,
    num_requested: u64,
}

/// The mathematical reading of a history vector.
pub open spec fn rates_model(s: Seq<u64>) -> Seq<int> {
    s.map_values(|r: u64| r as int)
}

impl View for Limiter {
    type V = LimiterModel;

    closed spec fn view(&self) -> LimiterModel {
        LimiterModel {
            num_tokens: self.num_tokens as int,
            max_tokens: self.max_tokens as int,
            refresh_interval: self.refresh_interval as int,
            tokens_per_refresh: self.tokens_per_refresh as int,
            next_refresh: self.next_refresh as int,
            previous_rates: rates_model(self.previous_rates@),
            previous_rates_sum: self.previous_rates_sum as int,
            current_period: self.current_period as int,
            num_allowed: self.num_allowed as int,
            num_requested: self.num_requested as int,
        }
    }
}

/// Nanoseconds between refills for a refresh rate in refills per second and a
/// number of tokens granted per refill.
pub open spec fn spec_refresh_interval(refresh_rate_ppb: int, tokens_per_refresh: int) -> int {
    (NANOS_PER_SEC as int) * (RATE_SCALE as int) * tokens_per_refresh / refresh_rate_ppb
}

/// The state of a freshly built limiter: a full bucket, a fully accepting
/// history and the first refresh one interval after `now`.
pub open spec fn spec_initial(
    now: TimePoint,
    max_tokens: u64,
    refresh_rate: Rate,
    tokens_per_refresh: u64,
) -> LimiterModel {
    LimiterModel {
        num_tokens: max_tokens as int,
        max_tokens: max_tokens as int,
        refresh_interval: spec_refresh_interval(refresh_rate.ppb as int, tokens_per_refresh as int),
        tokens_per_refresh: tokens_per_refresh as int,
        next_refresh: now.relative_nanos + spec_refresh_interval(
            refresh_rate.ppb as int,
            tokens_per_refresh as int,
        ),
        previous_rates: Seq::new(HISTORY_WINDOWS as nat, |i: int| RATE_SCALE as int),
        previous_rates_sum: HISTORY_WINDOWS * (RATE_SCALE as int),
        current_period: now.relative_nanos as int,
        num_allowed: 0,
        num_requested: 0,
    }
}

/// Adding an element adds its value to the sum.
proof fn lemma_sum_push(s: Seq<int>, x: int)
    ensures
        sum_rates(s.push(x)) == sum_rates(s) + x,
    decreases s.len(),
{
    if s.len() == 0 {
        assert(s.push(x)[0] == x);
        assert(s.push(x).drop_first() =~= Seq::<int>::empty());
        assert(sum_rates(Seq::<int>::empty()) == 0);
    } else {
        assert(s.push(x)[0] == s[0]);
        assert(s.push(x).drop_first() =~= s.drop_first().push(x));
        lemma_sum_push(s.drop_first(), x);
    }
}

/// The sum of a constant sequence.
proof fn lemma_sum_all_equal(s: Seq<int>, v: int)
    requires
        forall|i: int| 0 <= i < s.len() ==> s[i] == v,
    ensures
        sum_rates(s) == s.len() * v,
    decreases s.len(),
{
    if s.len() > 0 {
        assert(forall|i: int|
            0 <= i < s.drop_first().len() ==> #[trigger] s.drop_first()[i] == s[i + 1]);
        lemma_sum_all_equal(s.drop_first(), v);
        assert(s.len() * v == v + (s.len() - 1) * v) by (nonlinear_arith);
    }
}

/// Elementwise bounds on a sequence bound its sum.
proof fn lemma_sum_bounds(s: Seq<int>, lo: int, hi: int)
    requires
        forall|i: int| 0 <= i < s.len() ==> lo <= #[trigger] s[i] <= hi,
    ensures
        s.len() * lo <= sum_rates(s) <= s.len() * hi,
    decreases s.len(),
{
    if s.len() > 0 {
        assert(forall|i: int|
            0 <= i < s.drop_first().len() ==> lo <= #[trigger] s.drop_first()[i] <= hi) by {
            assert(forall|i: int|
                0 <= i < s.drop_first().len() ==> #[trigger] s.drop_first()[i] == s[i + 1]);
        }
        lemma_sum_bounds(s.drop_first(), lo, hi);
        assert(s.len() * lo == lo + (s.len() - 1) * lo) by (nonlinear_arith);
        assert(s.len() * hi == hi + (s.len() - 1) * hi) by (nonlinear_arith);
    }
}

/// The accept ratio of a window in fixed point, exactly as the model states
/// it; never above one.
fn window_rate_ppb(num_allowed: u64, num_requested: u64) -> (r: u64)
    requires
        num_allowed <= num_requested,
    ensures
        r == spec_window_rate(num_allowed as int, num_requested as int),
        r <= RATE_SCALE,
{
    if num_requested > 0 {
        proof {
            assert((num_allowed as int) * (RATE_SCALE as int) <= (u64::MAX as int) * (
            RATE_SCALE as int)) by (nonlinear_arith)
                requires
                    0 <= num_allowed <= u64::MAX,
            ;
        }
        let wide: u128 = (num_allowed as u128) * (RATE_SCALE as u128) / (num_requested as u128);
        proof {
            assert((num_allowed as int) * (RATE_SCALE as int) / (num_requested as int)
                <= RATE_SCALE as int) by (nonlinear_arith)
                requires
                    0 <= num_allowed <= num_requested,
                    num_requested > 0,
            ;
        }
        wide as u64
    } else {
        RATE_SCALE
    }
}

/// Sum of a history vector whose slots are each at most one.
fn sum_of_rates(rates: &Vec<u64>) -> (s: u64)
    requires
        rates@.len() <= HISTORY_WINDOWS,
        forall|i: int| 0 <= i < rates@.len() ==> #[trigger] rates@[i] <= RATE_SCALE,
    ensures
        s == sum_rates(rates_model(rates@)),
        s <= rates@.len() * RATE_SCALE,
{
    let ghost model = rates_model(rates@);
    let mut s: u64 = 0;
    let mut i: usize = 0;
    proof {
        assert(model.take(0) =~= Seq::<int>::empty());
    }
    while i < rates.len()
        invariant
            i <= rates@.len() <= HISTORY_WINDOWS,
            model == rates_model(rates@),
            forall|j: int| 0 <= j < rates@.len() ==> #[trigger] rates@[j] <= RATE_SCALE,
            s == sum_rates(model.take(i as int)),
            s <= i * RATE_SCALE,
        decreases rates@.len() - i,
    {
        proof {
            assert(model.take(i as int + 1) =~= model.take(i as int).push(model[i as int]));
            lemma_sum_push(model.take(i as int), model[i as int]);
        }
        s = s + rates[i];
        i += 1;
    }
    proof {
        assert(model.take(rates@.len() as int) =~= model);
    }
    s
}

impl Limiter {
    /// The state invariant, stated on the model.
    pub open spec fn wf(&self) -> bool {
        self@.wf()
    }

    /// A limiter whose bucket starts full, whose first refresh falls one
    /// interval from `now` and whose history starts fully accepting.
    ///
    /// `refresh_rate` is the number of refills per second in fixed point;
    /// together with `tokens_per_refresh` it fixes the refresh interval.  The
    /// interval must come to at least one nanosecond and both it and the
    /// first refresh instant must fit the clock's range.
    pub fn new(
        now: TimePoint,
        max_tokens: u64,
        refresh_rate: Rate,
        tokens_per_refresh: u64,
    ) -> (l: Limiter)
        requires
            refresh_rate.ppb >= 1,
            1 <= spec_refresh_interval(refresh_rate.ppb as int, tokens_per_refresh as int),
            now.relative_nanos + spec_refresh_interval(
                refresh_rate.ppb as int,
                tokens_per_refresh as int,
            ) <= u64::MAX,
        ensures
            l.wf(),
            l@ == spec_initial(now, max_tokens, refresh_rate, tokens_per_refresh),
    {
        proof {
            assert((NANOS_PER_SEC as int) * (RATE_SCALE as int) * (tokens_per_refresh as int) <= (
            NANOS_PER_SEC as int) * (RATE_SCALE as int) * (u64::MAX as int)) by (nonlinear_arith)
                requires
                    tokens_per_refresh <= u64::MAX,
            ;
        }
        let interval_wide: u128 = (NANOS_PER_SEC as u128) * (RATE_SCALE as u128) * (
        tokens_per_refresh as u128) / (refresh_rate.ppb as u128);
        let refresh_interval = interval_wide as u64;
        let mut previous_rates: Vec<u64> = Vec::new();
        let mut i: usize = 0;
        while i < HISTORY_WINDOWS
            invariant
                i <= HISTORY_WINDOWS,
                previous_rates@.len() == i,
                forall|j: int| 0 <= j < i ==> #[trigger] previous_rates@[j] == RATE_SCALE,
            decreases HISTORY_WINDOWS - i,
        {
            previous_rates.push(RATE_SCALE);
            i += 1;
        }
        let previous_rates_sum = sum_of_rates(&previous_rates);
        proof {
            assert(rates_model(previous_rates@) =~= Seq::new(
                HISTORY_WINDOWS as nat,
                |i: int| RATE_SCALE as int,
            ));
            lemma_sum_all_equal(rates_model(previous_rates@), RATE_SCALE as int);
        }
        let l = Limiter {
            num_tokens: max_tokens,
            max_tokens,
            refresh_interval,
            tokens_per_refresh,
            next_refresh: now.relative_nanos + refresh_interval,
            previous_rates,
            previous_rates_sum,
            current_period: now.relative_nanos,
            num_allowed: 0,
            num_requested: 0,
        };
        proof {
            assert(l@ =~= spec_initial(now, max_tokens, refresh_rate, tokens_per_refresh));
        }
        l
    }

    /// Fold the in-progress window into the history if at least one whole
    /// second has passed, exactly as `spec_rolled` states.
    fn roll(&mut self, now_rel: u64)
        requires
            old(self).wf(),
            now_rel >= old(self)@.current_period,
        ensures
            final (self).wf(),
            final (self)@ == spec_rolled(old(self)@, now_rel as int),
    {
        let intervals64: u64 = (now_rel - self.current_period) / NANOS_PER_SEC;
        if intervals64 == 0 {
            return ;
        }
        let cur = window_rate_ppb(self.num_allowed, self.num_requested);
        let ghost pre = self@;
        let ghost target = spec_rolled_rates(
            pre.previous_rates,
            spec_window_rate(pre.num_allowed, pre.num_requested),
            intervals64 as int,
        );
        let mut rolled: Vec<u64> = Vec::new();
        if intervals64 >= HISTORY_WINDOWS as u64 {
            rolled.push(self.previous_rates[0]);
            let mut i: usize = 1;
            while i < HISTORY_WINDOWS
                invariant
                    1 <= i <= HISTORY_WINDOWS,
                    pre.wf(),
                    pre == old(self)@,
                    rolled@.len() == i,
                    rolled@[0] as int == pre.previous_rates[0],
                    forall|j: int| 1 <= j < i ==> #[trigger] rolled@[j] == RATE_SCALE,
                decreases HISTORY_WINDOWS - i,
            {
                rolled.push(RATE_SCALE);
                i += 1;
            }
        } else {
            let intervals = intervals64 as usize;
            let mut i: usize = 0;
            while i < HISTORY_WINDOWS
                invariant
                    i <= HISTORY_WINDOWS,
                    1 <= intervals < HISTORY_WINDOWS,
                    intervals == intervals64,
                    cur == spec_window_rate(pre.num_allowed, pre.num_requested),
                    cur <= RATE_SCALE,
                    pre.wf(),
                    pre == old(self)@,
                    self == old(self),
                    self.previous_rates@.len() == HISTORY_WINDOWS,
                    target == spec_rolled_rates(
                        pre.previous_rates,
                        spec_window_rate(pre.num_allowed, pre.num_requested),
                        intervals as int,
                    ),
                    rolled@.len() == i,
                    forall|j: int| 0 <= j < i ==> #[trigger] rolled@[j] as int == target[j],
                decreases HISTORY_WINDOWS - i,
            {
                let v: u64 = if i + 1 == intervals {
                    cur
                } else if i + 2 == intervals {
                    self.previous_rates[i]
                } else if i + 2 < intervals {
                    RATE_SCALE
                } else {
                    self.previous_rates[i - intervals]
                };
                rolled.push(v);
                i += 1;
            }
        }
        proof {
            assert(rates_model(rolled@) =~= target);
            assert(forall|j: int|
                0 <= j < rolled@.len() ==> #[trigger] rolled@[j] <= RATE_SCALE) by {
                assert(forall|j: int|
                    0 <= j < target.len() ==> 0 <= #[trigger] target[j] <= RATE_SCALE);
            }
        }
        let sum = sum_of_rates(&rolled);
        self.previous_rates = rolled;
        self.previous_rates_sum = sum;
        self.num_allowed = 0;
        self.num_requested = 0;
        self.current_period = now_rel;
        proof {
            assert(rates_model(self.previous_rates@) =~= target);
            assert(self@ =~= spec_rolled(pre, now_rel as int));
            lemma_sum_bounds(target, 0, RATE_SCALE as int);
        }
    }

    /// Refill the bucket if the next refresh instant has passed, exactly as
    /// `spec_refilled` states.
    fn refill(&mut self, now_rel: u64)
        requires
            old(self).wf(),
            now_rel + old(self)@.refresh_interval <= u64::MAX,
        ensures
            final (self).wf(),
            final (self)@ == spec_refilled(old(self)@, now_rel as int),
    {
        if now_rel < self.next_refresh {
            return ;
        }
        let ghost pre = self@;
        let diff: u64 = now_rel - self.next_refresh;
        let intervals: u128 = (diff as u128) / (self.refresh_interval as u128) + 1;
        proof {
            assert((diff as int) / (pre.refresh_interval) * pre.refresh_interval <= diff as int
                && 0 <= (diff as int) / (pre.refresh_interval) <= diff as int
                && ((diff as int) / pre.refresh_interval + 1) * pre.refresh_interval == (diff as int)
                / pre.refresh_interval * pre.refresh_interval + pre.refresh_interval)
                by (nonlinear_arith)
                requires
                    pre.refresh_interval >= 1,
                    diff >= 0,
            ;
        }
        let advance: u128 = intervals * (self.refresh_interval as u128);
        self.next_refresh = self.next_refresh + (advance as u64);
        proof {
            assert((intervals as int) * (pre.tokens_per_refresh as int) <= (diff as int + 1) * (
            pre.tokens_per_refresh as int) && (intervals as int) * (pre.tokens_per_refresh as int)
                >= 0) by (nonlinear_arith)
                requires
                    1 <= intervals as int <= diff as int + 1,
                    pre.tokens_per_refresh >= 0,
            ;
            assert((diff as int + 1) * (pre.tokens_per_refresh as int) <= (u64::MAX as int + 1) * (
            u64::MAX as int)) by (nonlinear_arith)
                requires
                    0 <= diff as int + 1 <= u64::MAX as int + 1,
                    0 <= pre.tokens_per_refresh <= u64::MAX as int,
            ;
        }
        let refilled_wide: u128 = intervals * (self.tokens_per_refresh as u128);
        if refilled_wide > self.max_tokens as u128 {
            self.num_tokens = self.max_tokens;
        } else {
            self.num_tokens = refilled_wide as u64;
        }
        proof {
            assert(self@ =~= spec_refilled(pre, now_rel as int));
        }
    }

    /// One limiter call at clock reading `now`.
    ///
    /// The caller supplies monotonic clock readings: `now` must not precede
    /// the start of the current window.  The two arithmetic bounds keep the
    /// request counter and the next refresh instant within their 64-bit
    /// range.
    pub fn allow(&mut self, now: TimePoint, tokens_requested: u64) -> (r: LimitResult)
        requires
            old(self).wf(),
            now.relative_nanos >= old(self)@.current_period,
            old(self)@.num_requested < u64::MAX,
            now.relative_nanos + old(self)@.refresh_interval <= u64::MAX,
        ensures
            final (self).wf(),
            final (self)@ == spec_step(old(self)@, now.relative_nanos as int,
                tokens_requested as int).0,
            r.allowed == spec_step(old(self)@, now.relative_nanos as int,
                tokens_requested as int).1,
            r.effective_rate.ppb == spec_effective_rate(final (self)@),
            r.effective_rate.ppb <= RATE_SCALE,
            final (self)@.current_period <= now.relative_nanos,
            final (self)@.refresh_interval == old(self)@.refresh_interval,
            final (self)@.num_requested <= old(self)@.num_requested + 1,
    {
        let now_rel = now.relative_nanos;
        self.roll(now_rel);
        self.num_requested = self.num_requested + 1;
        self.refill(now_rel);
        let allowed = if self.num_tokens >= tokens_requested {
            self.num_allowed = self.num_allowed + 1;
            self.num_tokens = self.num_tokens - tokens_requested;
            true
        } else {
            false
        };
        let cur = window_rate_ppb(self.num_allowed, self.num_requested);
        proof {
            lemma_sum_bounds(self@.previous_rates, 0, RATE_SCALE as int);
            assert(self@.previous_rates.len() == 9);
            assert(self.previous_rates_sum as int <= 9 * (RATE_SCALE as int));
        }
        let effective = (self.previous_rates_sum + cur) / ((HISTORY_WINDOWS as u64) + 1);
        proof {
            lemma_div_is_ordered((self.previous_rates_sum + cur) as int, 10_000_000_000, 10);
            lemma_div_multiples_vanish(1_000_000_000, 10);
        }
        LimitResult { allowed, effective_rate: Rate { ppb: effective } }
    }
}

/// A refill never lifts the bucket above its capacity, no matter how long
/// the gap before it was.
pub proof fn lemma_refill_never_exceeds_capacity(m: LimiterModel, now: int)
    requires
        m.wf(),
    ensures
        spec_refilled(m, now).num_tokens <= m.max_tokens,
{
    let intervals = spec_refill_intervals(m, now);
    if intervals > 0 {
        assert(intervals * m.tokens_per_refresh >= 0) by (nonlinear_arith)
            requires
                intervals >= 0,
                m.tokens_per_refresh >= 0,
        ;
    }
}

/// After a gap of at least nine seconds in which the newest history slot was
/// fully accepting, the first allowed call reports a smoothed accept ratio
/// of exactly one.
pub proof fn lemma_idle_window_restores_full_rate(m: LimiterModel, now: int, requested: int)
    requires
        m.wf(),
        m.previous_rates[0] == RATE_SCALE,
        now - m.current_period >= HISTORY_WINDOWS * (NANOS_PER_SEC as int),
        spec_step(m, now, requested).1,
    ensures
        spec_effective_rate(spec_step(m, now, requested).0) == RATE_SCALE,
{
    let intervals = spec_roll_intervals(m, now);
    assert(intervals >= HISTORY_WINDOWS) by (nonlinear_arith)
        requires
            now - m.current_period >= HISTORY_WINDOWS * (NANOS_PER_SEC as int),
            intervals == (now - m.current_period) / (NANOS_PER_SEC as int),
    ;
    let rolled = spec_rolled(m, now);
    assert(forall|i: int|
        0 <= i < rolled.previous_rates.len() ==> #[trigger] rolled.previous_rates[i]
            == RATE_SCALE);
    lemma_sum_all_equal(rolled.previous_rates, RATE_SCALE as int);
    assert(rolled.previous_rates.len() == 9);
    assert(rolled.previous_rates_sum == 9 * (RATE_SCALE as int));
    let stepped = spec_step(m, now, requested).0;
    assert(stepped.num_allowed == 1 && stepped.num_requested == 1);
    assert(stepped.previous_rates_sum == 9 * (RATE_SCALE as int));
    assert(stepped.previous_rates.len() == 9);
    lemma_div_basics(RATE_SCALE as int);
    assert(spec_window_rate(1, 1) == RATE_SCALE);
    lemma_div_multiples_vanish(1_000_000_000, 10);
    assert((10_000_000_000int) / 10 == 1_000_000_000int);
}

} // verus!
