//! The adaptive prebuffer depth.
//!
//! An underrun raises the target depth by a step, up to a ceiling. Every whole
//! window of streaming without an underrun lowers it by a step, down to the
//! base depth, which is also where it starts.
//!
//! While the stream is stopped nothing changes, and the window is discarded:
//! time before a stop does not count after it.

use vstd::prelude::*;

use crate::jitter::MAX_PREBUFFER_MS;
use crate::jitter::MIN_PREBUFFER_MS;
use crate::millis;
use crate::millis::Millis;
use crate::millis::TICKS_PER_MS;

verus! {

/// A clock that counts nanoseconds from an arbitrary fixed origin and never
/// goes back.
pub trait Clock {
    /// Nanoseconds since the origin.
    fn now(&self) -> u64;
}

/// The timings of a controller.
#[derive(Debug, Clone, Copy, PartialEq, Eq, Structural)]
pub struct DepthParams {
    /// How far an underrun raises the target.
    pub rise_ms: Millis,
    /// How long a window without an underrun is, in nanoseconds.
    pub decay_window: u64,
    /// How far a whole window without an underrun lowers the target.
    pub decay_step_ms: Millis,
}

/// The timings in use where none are given: 2 ms up, 1 ms down per minute.
pub open spec fn default_params() -> DepthParams {
    DepthParams {
        rise_ms: Millis { ticks: (2 * TICKS_PER_MS) as i64 },
        decay_window: 60_000_000_000,
        decay_step_ms: Millis { ticks: TICKS_PER_MS },
    }
}

/// The shortest window, in nanoseconds: 1 ms.
pub const MIN_DECAY_WINDOW: u64 = 1_000_000;

/// Timings made safe: no negative step, and a window of at least 1 ms.
pub open spec fn safe_params(p: DepthParams) -> DepthParams {
    DepthParams {
        rise_ms: if p.rise_ms.ticks < 0 {
            Millis { ticks: 0 }
        } else {
            p.rise_ms
        },
        decay_window: if p.decay_window < MIN_DECAY_WINDOW {
            MIN_DECAY_WINDOW
        } else {
            p.decay_window
        },
        decay_step_ms: if p.decay_step_ms.ticks < 0 {
            Millis { ticks: 0 }
        } else {
            p.decay_step_ms
        },
    }
}

impl Default for DepthParams {
    fn default() -> (p: Self)
        ensures
            p == default_params(),
    {
        DepthParams {
            rise_ms: Millis::whole(2),
            decay_window: 60_000_000_000,
            decay_step_ms: Millis::whole(1),
        }
    }
}

impl DepthParams {
    /// The timings made safe.
    fn sanitized(self) -> (p: Self)
        ensures
            p == safe_params(self),
    {
        DepthParams {
            rise_ms: if self.rise_ms.ticks < 0 {
                Millis { ticks: 0 }
            } else {
                self.rise_ms
            },
            decay_window: if self.decay_window < MIN_DECAY_WINDOW {
                MIN_DECAY_WINDOW
            } else {
                self.decay_window
            },
            decay_step_ms: if self.decay_step_ms.ticks < 0 {
                Millis { ticks: 0 }
            } else {
                self.decay_step_ms
            },
        }
    }
}

/// The depth as the contracts see it. Depths are in ticks, times in
/// nanoseconds.
pub ghost struct DepthView {
    pub rise: int,
    pub window: int,
    pub step: int,
    pub base: int,
    pub target: int,
    /// Where the window without an underrun starts, while there is one.
    pub window_start: Option<u64>,
}

/// The ceiling of the depth in ticks.
pub open spec fn ceiling() -> int {
    MAX_PREBUFFER_MS * TICKS_PER_MS
}

/// The least base depth in ticks.
pub open spec fn lowest_base() -> int {
    MIN_PREBUFFER_MS * TICKS_PER_MS
}

/// What holds of every controller: the target lies between the base and the
/// ceiling, and the timings are safe.
pub open spec fn in_range(v: DepthView) -> bool {
    &&& lowest_base() <= v.base <= v.target <= ceiling()
    &&& 0 <= v.rise
    &&& MIN_DECAY_WINDOW <= v.window
    &&& 0 <= v.step
}

/// A controller that has seen nothing.
pub open spec fn initial(base: Millis, params: DepthParams) -> DepthView {
    let p = safe_params(params);
    let b = millis::clamped(base.ticks as int, lowest_base(), ceiling());
    DepthView {
        rise: p.rise_ms.ticks as int,
        window: p.decay_window as int,
        step: p.decay_step_ms.ticks as int,
        base: b,
        target: b,
        window_start: None,
    }
}

/// After an underrun at `now`: a step up, and a new window.
pub open spec fn after_underrun(v: DepthView, now: u64) -> DepthView {
    DepthView {
        target: if v.target + v.rise < ceiling() {
            v.target + v.rise
        } else {
            ceiling()
        },
        window_start: Some(now),
        ..v
    }
}

/// How many whole windows lie between `start` and `now`.
pub open spec fn windows_between(start: int, now: int, window: int) -> int {
    if now <= start {
        0
    } else {
        (now - start) / window
    }
}

/// The target after `k` steps down, no deeper than the base.
pub open spec fn lowered(v: DepthView, k: int) -> int {
    if v.target - k * v.step > v.base {
        v.target - k * v.step
    } else {
        v.base
    }
}

/// After a tick at `now` while streaming: a step down for each whole window
/// since the window started, which starts anew behind them. Without a window,
/// one starts.
pub open spec fn after_running_tick(v: DepthView, now: u64) -> DepthView {
    match v.window_start {
        None => DepthView { window_start: Some(now), ..v },
        Some(start) => {
            let k = windows_between(start as int, now as int, v.window);
            DepthView {
                target: lowered(v, k),
                window_start: Some((start + k * v.window) as u64),
                ..v
            }
        },
    }
}

/// After a tick while stopped: the window is discarded.
pub open spec fn after_stopped_tick(v: DepthView) -> DepthView {
    DepthView { window_start: None, ..v }
}

/// Controls the prebuffer depth of a stream.
pub struct DepthController<C: Clock> {
    clock: C,
    params: DepthParams,
    base_ms: Millis,
    target_ms: Millis,
    window_start: Option<u64>,
}

impl<C: Clock> View for DepthController<C> {
    type V = DepthView;

    closed spec fn view(&self) -> DepthView {
        DepthView {
            rise: self.params.rise_ms.ticks as int,
            window: self.params.decay_window as int,
            step: self.params.decay_step_ms.ticks as int,
            base: self.base_ms.ticks as int,
            target: self.target_ms.ticks as int,
            window_start: self.window_start,
        }
    }
}

impl<C: Clock> DepthController<C> {
    /// The invariant: the target lies between the base and the ceiling.
    pub open spec fn wf(self) -> bool {
        in_range(self@)
    }

    /// The clock that it reads.
    pub closed spec fn clock_of(self) -> C {
        self.clock
    }

    /// A controller with the default timings.
    pub fn new(clock: C, base_ms: Millis) -> (c: Self)
        ensures
            c.wf(),
            c@ == initial(base_ms, default_params()),
            c.clock_of() == clock,
    {
        Self::with_params(clock, base_ms, DepthParams::default())
    }

    /// A controller with the given timings. The base depth is moved into the
    /// range of depths.
    pub fn with_params(clock: C, base_ms: Millis, params: DepthParams) -> (c: Self)
        ensures
            c.wf(),
            c@ == initial(base_ms, params),
            c.clock_of() == clock,
    {
        let base = base_ms.clamp(
            Millis::whole(MIN_PREBUFFER_MS),
            Millis::whole(MAX_PREBUFFER_MS),
        );
        DepthController {
            clock,
            params: params.sanitized(),
            base_ms: base,
            target_ms: base,
            window_start: None,
        }
    }

    /// Records an underrun now, by the clock.
    pub fn on_underrun(&mut self)
        requires
            old(self).wf(),
        ensures
            final(self).wf(),
            final(self).clock_of() == old(self).clock_of(),
            exists|now: u64|
                {
                    &&& call_ensures(C::now, (&old(self).clock_of(),), now)
                    &&& final(self)@ == #[trigger] after_underrun(old(self)@, now)
                },
    {
        let now: u64 = self.clock.now();
        self.on_underrun_at(now);
    }

    /// Records an underrun at `now`.
    pub fn on_underrun_at(&mut self, now: u64)
        requires
            old(self).wf(),
        ensures
            final(self).wf(),
            final(self)@ == after_underrun(old(self)@, now),
            final(self).clock_of() == old(self).clock_of(),
    {
        let ceiling: i64 = Millis::whole(MAX_PREBUFFER_MS).ticks;
        let rise: i64 = self.params.rise_ms.ticks;
        self.target_ms = if rise < ceiling - self.target_ms.ticks {
            Millis { ticks: self.target_ms.ticks + rise }
        } else {
            Millis { ticks: ceiling }
        };
        self.window_start = Some(now);
    }

    /// Lets time pass and gives the target depth. The clock is read only while
    /// streaming.
    pub fn on_tick(&mut self, running: bool) -> (target: Millis)
        requires
            old(self).wf(),
        ensures
            final(self).wf(),
            target.ticks == final(self)@.target,
            !running ==> final(self)@ == after_stopped_tick(old(self)@),
            running ==> exists|now: u64|
                {
                    &&& call_ensures(C::now, (&old(self).clock_of(),), now)
                    &&& final(self)@ == #[trigger] after_running_tick(old(self)@, now)
                },
            final(self).clock_of() == old(self).clock_of(),
    {
        if !running {
            self.window_start = None;
            return self.target_ms;
        }
        let now: u64 = self.clock.now();
        self.on_running_tick_at(now)
    }

    /// Lets time pass up to `now` while streaming and gives the target depth.
    pub fn on_running_tick_at(&mut self, now: u64) -> (target: Millis)
        requires
            old(self).wf(),
        ensures
            final(self).wf(),
            final(self)@ == after_running_tick(old(self)@, now),
            final(self).clock_of() == old(self).clock_of(),
            target.ticks == final(self)@.target,
    {
        let first: u64 = match self.window_start {
            Some(start) => start,
            None => {
                self.window_start = Some(now);
                return self.target_ms;
            },
        };
        let window: u64 = self.params.decay_window;
        let step: i64 = self.params.decay_step_ms.ticks;
        let mut start: u64 = first;
        let ghost mut k: int = 0;
        assert(k * step == 0 && k * window == 0) by (nonlinear_arith)
            requires
                k == 0,
        ;
        while start <= now && now - start >= window
            invariant
                0 <= k,
                0 < window,
                0 <= step,
                first <= start,
                start == first + k * window,
                k > 0 ==> start <= now,
                old(self)@.base <= old(self)@.target <= ceiling(),
                lowest_base() <= old(self)@.base,
                old(self)@.step == step,
                self@ == (DepthView { target: lowered(old(self)@, k), ..old(self)@ }),
                self.clock == old(self).clock,
            decreases now - start,
        {
            proof {
                let v = old(self)@;
                assert((k + 1) * window == k * window + window) by (nonlinear_arith);
                assert((k + 1) * v.step == k * v.step + v.step) by (nonlinear_arith);
            }
            let target: i64 = self.target_ms.ticks;
            self.target_ms = if step < target - self.base_ms.ticks {
                Millis { ticks: target - step }
            } else {
                self.base_ms
            };
            start = start + window;
            proof {
                k = k + 1;
            }
        }
        proof {
            lemma_window_count(first as int, now as int, window as int, k);
        }
        self.window_start = Some(start);
        self.target_ms
    }

    /// The target depth.
    pub fn target_ms(&self) -> (m: Millis)
        ensures
            m.ticks == self@.target,
    {
        self.target_ms
    }

    /// The base depth.
    pub fn base_ms(&self) -> (m: Millis)
        ensures
            m.ticks == self@.base,
    {
        self.base_ms
    }
}

/// `k` is the number of whole windows if they end by `now` and one more would
/// not.
proof fn lemma_window_count(start: int, now: int, window: int, k: int)
    requires
        0 <= k,
        0 < window,
        k > 0 ==> start + k * window <= now,
        !(start + k * window <= now && now - (start + k * window) >= window),
    ensures
        k == windows_between(start, now, window),
{
    if now <= start {
        if k > 0 {
            assert(k * window >= window) by (nonlinear_arith)
                requires
                    k >= 1,
                    window > 0,
            ;
        }
    } else {
        let d = now - start;
        if k == 0 {
            assert(0 * window == 0);
        }
        vstd::arithmetic::div_mod::lemma_fundamental_div_mod_converse(
            d,
            window,
            k,
            d - k * window,
        );
    }
}

/// The depth stays between the base and the ceiling, whatever happens.
pub proof fn depth_stays_in_range(v: DepthView, now: u64)
    requires
        in_range(v),
    ensures
        in_range(after_underrun(v, now)),
        in_range(after_running_tick(v, now)),
        in_range(after_stopped_tick(v)),
        after_underrun(v, now).base == v.base,
        after_running_tick(v, now).base == v.base,
        after_underrun(v, now).target >= v.target,
        after_running_tick(v, now).target <= v.target,
{
    match v.window_start {
        Some(start) => {
            let k = windows_between(start as int, now as int, v.window);
            if now > start {
                vstd::arithmetic::div_mod::lemma_div_pos_is_pos(now - start, v.window);
            }
            assert(k * v.step >= 0) by (nonlinear_arith)
                requires
                    k >= 0,
                    v.step >= 0,
            ;
        },
        None => {},
    }
}

/// An underrun restarts the window: no step down comes before a whole window
/// after it.
pub proof fn no_decay_before_a_whole_window(v: DepthView, underrun: u64, now: u64)
    requires
        in_range(v),
        now < underrun + v.window,
    ensures
        after_running_tick(after_underrun(v, underrun), now) == after_underrun(v, underrun),
{
    let w = after_underrun(v, underrun);
    if now > underrun {
        vstd::arithmetic::div_mod::lemma_basic_div(now - underrun, v.window);
    }
    assert(0 * v.step == 0);
    assert(0 * v.window == 0);
}

/// A stop changes no depth, and time that passes while stopped never counts:
/// the first tick after it only starts a window.
pub proof fn stopped_time_never_counts(v: DepthView, now: u64)
    requires
        in_range(v),
    ensures
        after_stopped_tick(v).target == v.target,
        after_running_tick(after_stopped_tick(v), now).target == v.target,
        after_running_tick(after_stopped_tick(v), now).window_start == Some(now),
{
}

/// How often the controller is ticked makes no difference: a tick in between
/// leads to the same as the later tick alone.
pub proof fn tick_rate_does_not_matter(v: DepthView, earlier: u64, later: u64)
    requires
        in_range(v),
        v.window_start is Some,
        earlier <= later,
    ensures
        after_running_tick(after_running_tick(v, earlier), later) == after_running_tick(v, later),
{
    let start = v.window_start->0 as int;
    let w = v.window;
    let k1 = windows_between(start, earlier as int, w);
    let k = windows_between(start, later as int, w);
    lemma_windows_fit(start, earlier as int, w);
    lemma_windows_fit(start, later as int, w);
    let middle = start + k1 * w;
    let k2 = windows_between(middle, later as int, w);
    assert(k == k1 + k2) by {
        if later <= start {
            assert(0 * w == 0);
        } else if earlier <= start {
            assert(0 * w == 0);
        } else {
            let d = later - start;
            assert(d - k1 * w >= 0);
            vstd::arithmetic::div_mod::lemma_hoist_over_denominator(d - k1 * w, k1, w as nat);
            assert((d - k1 * w) / w + k1 == (d - k1 * w + k1 * w) / w);
            if later <= middle {
                assert(d - k1 * w == 0);
                assert(0int / w == 0) by (nonlinear_arith)
                    requires
                        w > 0,
                ;
            }
        }
    }
    assert(k1 * w + k2 * w == k * w) by (nonlinear_arith)
        requires
            k == k1 + k2,
    ;
    assert(k1 * v.step + k2 * v.step == k * v.step) by (nonlinear_arith)
        requires
            k == k1 + k2,
    ;
    assert(0 <= k2) by {
        if later > middle {
            vstd::arithmetic::div_mod::lemma_div_pos_is_pos(later - middle, w);
        }
    }
    assert(0 <= k1 * v.step && 0 <= k2 * v.step) by (nonlinear_arith)
        requires
            0 <= k1,
            0 <= k2,
            0 <= v.step,
    ;
    let once = after_running_tick(v, earlier);
    assert(middle <= u64::MAX);
    assert(once.window_start == Some(middle as u64));
}

proof fn lemma_windows_fit(start: int, now: int, window: int)
    requires
        0 < window,
    ensures
        0 <= windows_between(start, now, window),
        now > start ==> start + windows_between(start, now, window) * window <= now,
{
    if now > start {
        let d = now - start;
        vstd::arithmetic::div_mod::lemma_fundamental_div_mod(d, window);
        vstd::arithmetic::div_mod::lemma_div_pos_is_pos(d, window);
        vstd::arithmetic::mul::lemma_mul_is_commutative(window, d / window);
        vstd::arithmetic::div_mod::lemma_mod_bound(d, window);
    }
}

/// The depth after underruns at the given times.
pub open spec fn after_underruns(v: DepthView, times: Seq<u64>) -> DepthView
    decreases times.len(),
{
    if times.len() == 0 {
        v
    } else {
        after_underrun(after_underruns(v, times.drop_last()), times.last())
    }
}

/// The depth after underruns alone: a step up for each, up to the ceiling.
pub proof fn every_underrun_is_a_step_up(v: DepthView, times: Seq<u64>)
    requires
        in_range(v),
    ensures
        after_underruns(v, times).target == (if v.target + times.len() * v.rise < ceiling() {
            v.target + times.len() * v.rise
        } else {
            ceiling()
        }),
        after_underruns(v, times).rise == v.rise,
    decreases times.len(),
{
    if times.len() == 0 {
        assert(0 * v.rise == 0);
    } else {
        let n = times.len() as int;
        every_underrun_is_a_step_up(v, times.drop_last());
        assert(n * v.rise == (n - 1) * v.rise + v.rise) by (nonlinear_arith);
    }
}

/// Where nothing else is given, an underrun raises the depth by 2 ms and a minute
/// without one lowers it by 1 ms, within 5 to 20 ms.
pub proof fn default_timings(base: Millis)
    ensures
        ({
            let v = initial(base, default_params());
            &&& v.rise == 2 * 6000
            &&& v.step == 6000
            &&& v.window == 60_000_000_000
            &&& v.target == v.base
            &&& 5 * 6000 <= v.base <= 20 * 6000
            &&& 5 * 6000 <= base.ticks <= 20 * 6000 ==> v.base == base.ticks
            &&& base.ticks < 5 * 6000 ==> v.base == 5 * 6000
            &&& base.ticks > 20 * 6000 ==> v.base == 20 * 6000
            &&& v.window_start is None
            &&& ceiling() == 20 * 6000
        }),
{
}

/// Timings that are safe are kept; others become the nearest that are.
pub proof fn safe_timings_are_kept(p: DepthParams)
    ensures
        ({
            let q = safe_params(p);
            &&& q.rise_ms.ticks >= 0 && q.decay_step_ms.ticks >= 0
            &&& q.decay_window >= 1_000_000
            &&& p.rise_ms.ticks >= 0 ==> q.rise_ms == p.rise_ms
            &&& p.decay_step_ms.ticks >= 0 ==> q.decay_step_ms == p.decay_step_ms
            &&& p.decay_window >= 1_000_000 ==> q.decay_window == p.decay_window
            &&& p.rise_ms.ticks < 0 ==> q.rise_ms.ticks == 0
            &&& p.decay_step_ms.ticks < 0 ==> q.decay_step_ms.ticks == 0
            &&& p.decay_window < 1_000_000 ==> q.decay_window == 1_000_000
        }),
{
}

/// After an underrun, `k` whole windows without another lower the depth by `k`
/// steps, no deeper than the base; what is left of the time counts on.
pub proof fn every_whole_window_is_a_step_down(v: DepthView, underrun: u64, k: nat, rest: nat)
    requires
        in_range(v),
        rest < v.window,
        underrun + k * v.window + rest <= u64::MAX,
    ensures
        ({
            let raised = after_underrun(v, underrun);
            let now = (underrun + k * v.window + rest) as u64;
            let after = after_running_tick(raised, now);
            &&& raised.target == (if v.target + v.rise < ceiling() {
                v.target + v.rise
            } else {
                ceiling()
            })
            &&& after.target == (if raised.target - k * v.step > v.base {
                raised.target - k * v.step
            } else {
                v.base
            })
            &&& after.window_start == Some((underrun + k * v.window) as u64)
        }),
{
    let w = v.window;
    let d = k * w + rest;
    assert(0 <= k * w) by (nonlinear_arith)
        requires
            0 <= k,
            0 <= w,
    ;
    vstd::arithmetic::div_mod::lemma_fundamental_div_mod_converse(d, w, k as int, rest as int);
    if d == 0 {
        assert(k * w >= k) by (nonlinear_arith)
            requires
                w >= 1,
                k >= 0,
        ;
    }
}

/// An underrun makes the target deeper by a step, up to 20 ms, and starts a window;
/// nothing else about the controller changes.
pub proof fn underruns_raise_the_target<C: Clock>(c: &mut DepthController<C>, now: u64)
    requires
        old(c).wf(),
        call_ensures(DepthController::<C>::on_underrun_at, (c, now), ()),
    ensures
        final(c).wf(),
        old(c)@.target + old(c)@.rise <= 20 * 6000 ==> final(c)@.target == old(c)@.target
            + old(c)@.rise,
        old(c)@.target + old(c)@.rise > 20 * 6000 ==> final(c)@.target == 20 * 6000,
        final(c)@.window_start == Some(now),
        final(c)@.base == old(c)@.base && final(c)@.rise == old(c)@.rise,
        final(c)@.window == old(c)@.window && final(c)@.step == old(c)@.step,
{
}

/// A tick gives the target it leaves: one step less for each of the `k` whole windows
/// since the window started, but never less than the base. The next window starts
/// where the last one ended.
pub proof fn ticks_lower_the_target<C: Clock>(
    c: &mut DepthController<C>,
    start: u64,
    k: nat,
    rest: nat,
    now: u64,
    target: Millis,
)
    requires
        old(c).wf(),
        old(c)@.window_start == Some(start),
        rest < old(c)@.window,
        now == start + k * old(c)@.window + rest,
        call_ensures(DepthController::<C>::on_running_tick_at, (c, now), target),
    ensures
        final(c).wf(),
        target.ticks == final(c)@.target,
        old(c)@.target - k * old(c)@.step > old(c)@.base ==> final(c)@.target == old(c)@.target
            - k * old(c)@.step,
        old(c)@.target - k * old(c)@.step <= old(c)@.base ==> final(c)@.target == old(c)@.base,
        final(c)@.window_start is Some,
        final(c)@.window_start->0 == start + k * old(c)@.window,
        final(c)@.base == old(c)@.base && final(c)@.rise == old(c)@.rise,
        final(c)@.window == old(c)@.window && final(c)@.step == old(c)@.step,
{
    let w = old(c)@.window;
    let d = k * w + rest;
    assert(0 <= k * w) by (nonlinear_arith)
        requires
            0 <= k,
            0 <= w,
    ;
    vstd::arithmetic::div_mod::lemma_fundamental_div_mod_converse(d, w, k as int, rest as int);
    if d == 0 {
        assert(k * w >= k) by (nonlinear_arith)
            requires
                w >= 1,
                k >= 0,
        ;
        assert(0 * w == 0);
        assert(0 * old(c)@.step == 0);
    }
}

/// A tick without a window starts one and keeps the target; a tick while stopped ends
/// the window and keeps the target too.
pub proof fn windows_start_and_end<C: Clock>(
    c: &mut DepthController<C>,
    now: u64,
    target: Millis,
    s: &mut DepthController<C>,
    stopped: Millis,
)
    requires
        old(c)@.window_start is None,
        call_ensures(DepthController::<C>::on_running_tick_at, (c, now), target),
        call_ensures(DepthController::<C>::on_tick, (s, false), stopped),
    ensures
        target.ticks == old(c)@.target && final(c)@.target == old(c)@.target,
        final(c)@.window_start == Some(now),
        stopped.ticks == old(s)@.target && final(s)@.target == old(s)@.target,
        final(s)@.window_start is None,
        final(s)@.base == old(s)@.base,
{
}

/// A controller starts at its base, which is the given depth moved into 5 to 20 ms.
pub proof fn controllers_start_at_the_base<C: Clock>(
    clock: C,
    base: Millis,
    params: DepthParams,
    c: DepthController<C>,
    target: Millis,
    given: Millis,
)
    requires
        call_ensures(DepthController::<C>::with_params, (clock, base, params), c),
        call_ensures(DepthController::<C>::target_ms, (&c,), target),
        call_ensures(DepthController::<C>::base_ms, (&c,), given),
    ensures
        target == given,
        5 * 6000 <= base.ticks <= 20 * 6000 ==> target == base,
        base.ticks < 5 * 6000 ==> target.ticks == 5 * 6000,
        base.ticks > 20 * 6000 ==> target.ticks == 20 * 6000,
        params.rise_ms.ticks >= 0 ==> c@.rise == params.rise_ms.ticks,
        params.decay_step_ms.ticks >= 0 ==> c@.step == params.decay_step_ms.ticks,
        params.decay_window >= 1_000_000 ==> c@.window == params.decay_window,
        c@.window_start is None,
{
}

/// Where no timings are given, an underrun is worth 2 ms and a quiet minute 1 ms.
pub proof fn controllers_have_default_timings<C: Clock>(clock: C, base: Millis, c: DepthController<C>)
    requires
        call_ensures(DepthController::<C>::new, (clock, base), c),
    ensures
        c@.rise == 2 * 6000,
        c@.step == 6000,
        c@.window == 60_000_000_000,
        c@.base == c@.target,
        5 * 6000 <= base.ticks <= 20 * 6000 ==> c@.base == base.ticks,
        c@.window_start is None,
        c.wf(),
{
}

/// An underrun by the clock raises the target as one at any time does; ticks by the clock
/// give the target they leave, never deeper than before.
pub proof fn clocked_steps_move_the_target<C: Clock>(
    u: &mut DepthController<C>,
    t: &mut DepthController<C>,
    target: Millis,
)
    requires
        old(u).wf(),
        call_ensures(DepthController::<C>::on_underrun, (u,), ()),
        old(t).wf(),
        call_ensures(DepthController::<C>::on_tick, (t, true), target),
    ensures
        old(u)@.target + old(u)@.rise <= 20 * 6000 ==> final(u)@.target == old(u)@.target
            + old(u)@.rise,
        old(u)@.target + old(u)@.rise > 20 * 6000 ==> final(u)@.target == 20 * 6000,
        final(u)@.window_start is Some,
        final(u)@.base == old(u)@.base,
        target.ticks == final(t)@.target,
        old(t)@.base <= final(t)@.target <= old(t)@.target,
        final(t)@.base == old(t)@.base,
        final(t)@.window_start is Some,
{
    let now = choose|now: u64|
        {
            &&& call_ensures(C::now, (&old(t).clock_of(),), now)
            &&& final(t)@ == #[trigger] after_running_tick(old(t)@, now)
        };
    depth_stays_in_range(old(t)@, now);
}

} // verus!
