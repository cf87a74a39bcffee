//! Loss profiles and the decision made for each datagram.
//!
//! * `clean`: every datagram is forwarded at once.
//! * `loss2`: each datagram is dropped with probability 0.02.
//! * `burst`: a two-state chain. A datagram in the good state moves to the bad
//!   state with probability 0.005 and one in the bad state back with
//!   probability 0.05; it is then dropped with probability 0.01 in the good and
//!   0.95 in the bad state.
//! * `jitter30`: a delay of 0 to 60 ms for each datagram, and with probability
//!   0.01 an immediate duplicate besides.

use vstd::prelude::*;

use crate::rng;
use crate::rng::SplitMix64;
use crate::rng::UNIT;
use crate::text::same_text;

verus! {

/// Drop probability of `loss2` (0.02), in units of 2^-53.
pub const LOSS2_DROP_PROB: u64 = 180_143_985_094_820;

/// Drop probability of `burst` in the good state (0.01), in units of 2^-53.
pub const BURST_GOOD_DROP_PROB: u64 = 90_071_992_547_410;

/// Drop probability of `burst` in the bad state (0.95), in units of 2^-53.
pub const BURST_BAD_DROP_PROB: u64 = 8_556_839_292_003_942;

/// Probability that `burst` turns bad (0.005), in units of 2^-53.
pub const BURST_GOOD_TO_BAD: u64 = 45_035_996_273_705;

/// Probability that `burst` turns good again (0.05), in units of 2^-53.
pub const BURST_BAD_TO_GOOD: u64 = 450_359_962_737_050;

/// Largest extra delay of `jitter30`, in milliseconds.
pub const JITTER_MAX_DELAY_MS: u64 = 60;

/// Duplicate probability of `jitter30` (0.01), in units of 2^-53.
pub const JITTER_DUP_PROB: u64 = 90_071_992_547_410;

/// A loss profile.
#[derive(Debug, Clone, Copy, PartialEq, Eq, Hash, Structural)]
pub enum Profile {
    /// Forward everything unchanged.
    Clean,
    /// Drop each datagram with probability 0.02.
    Loss2,
    /// Bursty loss.
    Burst,
    /// A delay of 0 to 60 ms and 1% immediate duplicates.
    Jitter30,
}

/// The name of a profile.
pub open spec fn profile_name(p: Profile) -> Seq<char> {
    match p {
        Profile::Clean => "clean"@,
        Profile::Loss2 => "loss2"@,
        Profile::Burst => "burst"@,
        Profile::Jitter30 => "jitter30"@,
    }
}

/// The text that rejects a name.
pub open spec fn unknown_profile(name: Seq<char>) -> Seq<char> {
    "unknown profile `"@ + name + "` (expected one of: clean, loss2, burst, jitter30)"@
}

impl Profile {
    /// The four profiles.
    pub const ALL: [Profile; 4] = [
        Profile::Clean,
        Profile::Loss2,
        Profile::Burst,
        Profile::Jitter30,
    ];

    /// The name of the profile.
    pub fn as_str(self) -> (name: &'static str)
        ensures
            name@ == profile_name(self),
    {
        match self {
            Profile::Clean => "clean",
            Profile::Loss2 => "loss2",
            Profile::Burst => "burst",
            Profile::Jitter30 => "jitter30",
        }
    }

    /// The profile of a name. Names are matched exactly.
    pub fn parse(s: &str) -> (r: Result<Profile, String>)
        ensures
            match r {
                Ok(p) => s@ == profile_name(p),
                Err(e) => {
                    &&& forall|q: Profile| s@ != #[trigger] profile_name(q)
                    &&& e@ == unknown_profile(s@)
                },
            },
    {
        if same_text(s, "clean") {
            Ok(Profile::Clean)
        } else if same_text(s, "loss2") {
            Ok(Profile::Loss2)
        } else if same_text(s, "burst") {
            Ok(Profile::Burst)
        } else if same_text(s, "jitter30") {
            Ok(Profile::Jitter30)
        } else {
            let mut e = String::new();
            e.append("unknown profile `");
            e.append(s);
            e.append("` (expected one of: clean, loss2, burst, jitter30)");
            assert(e@ =~= unknown_profile(s@));
            Err(e)
        }
    }
}

impl std::str::FromStr for Profile {
    type Err = String;

    /// The profile of a name. Names are matched exactly.
    fn from_str(s: &str) -> (r: Result<Self, Self::Err>)
        ensures
            match r {
                Ok(p) => s@ == profile_name(p),
                Err(e) => {
                    &&& forall|p: Profile| s@ != #[trigger] profile_name(p)
                    &&& e@ == unknown_profile(s@)
                },
            },
    {
        Profile::parse(s)
    }
}

/// No two profiles share a name, so parsing a name gives its profile back.
pub proof fn names_are_distinct(p: Profile, q: Profile)
    ensures
        profile_name(p) == profile_name(q) ==> p == q,
{
    reveal_strlit("clean");
    reveal_strlit("loss2");
    reveal_strlit("burst");
    reveal_strlit("jitter30");
    assert("clean"@[0] == 'c');
    assert("loss2"@[0] == 'l');
    assert("burst"@[0] == 'b');
    assert("jitter30"@[0] == 'j');
}

/// What to do with one datagram. Delays are in milliseconds.
#[derive(Debug, Clone, Copy, PartialEq, Eq, Structural)]
pub enum Action {
    /// Send it at once.
    ForwardImmediate,
    /// Send it once, after the delay.
    ForwardDelayed(u64),
    /// Send a duplicate at once and the original after the delay.
    ForwardImmediatePlusDelayed(u64),
    /// Do not send it.
    Drop,
}

/// The delay of the original datagram, if it has one.
pub open spec fn delay_of(a: Action) -> Option<u64> {
    match a {
        Action::ForwardDelayed(d) => Some(d),
        Action::ForwardImmediatePlusDelayed(d) => Some(d),
        _ => None,
    }
}

impl Action {
    /// Whether the datagram is dropped.
    pub fn is_drop(self) -> (r: bool)
        ensures
            r == (self is Drop),
    {
        match self {
            Action::Drop => true,
            _ => false,
        }
    }

    /// The delay of the original datagram in milliseconds, if it has one.
    pub fn delay(self) -> (d: Option<u64>)
        ensures
            d == delay_of(self),
    {
        match self {
            Action::ForwardDelayed(d) => Some(d),
            Action::ForwardImmediatePlusDelayed(d) => Some(d),
            _ => None,
        }
    }

    /// Whether a duplicate is sent at once.
    pub fn duplicates(self) -> (r: bool)
        ensures
            r == (self is ForwardImmediatePlusDelayed),
    {
        match self {
            Action::ForwardImmediatePlusDelayed(_) => true,
            _ => false,
        }
    }
}

/// The distance of neighbouring numbers with 53 significant bits around `n`,
/// for `n` below 2^59.
pub open spec fn rounding_step(n: int) -> int {
    if n < 0x20_0000_0000_0000 {
        1
    } else if n < 0x40_0000_0000_0000 {
        2
    } else if n < 0x80_0000_0000_0000 {
        4
    } else if n < 0x100_0000_0000_0000 {
        8
    } else if n < 0x200_0000_0000_0000 {
        16
    } else if n < 0x400_0000_0000_0000 {
        32
    } else {
        64
    }
}

/// `n` rounded to a multiple of `step`, halves to the even multiple.
pub open spec fn rounded_to(n: int, step: int) -> int {
    let q = n / step;
    let r = n % step;
    if 2 * r > step || (2 * r == step && q % 2 == 1) {
        (q + 1) * step
    } else {
        q * step
    }
}

/// The delay in milliseconds for a drawn fraction: the fraction times 61,
/// rounded to 53 significant bits, without its fractional part.
pub open spec fn jitter_ms(fraction: u64) -> u64 {
    let n = 61 * fraction;
    (rounded_to(n, rounding_step(n)) / (UNIT as int)) as u64
}

/// Computes the delay for a drawn fraction.
fn jitter_delay(fraction: u64) -> (ms: u64)
    requires
        fraction < UNIT,
    ensures
        ms == jitter_ms(fraction),
        ms <= JITTER_MAX_DELAY_MS,
{
    let n: u64 = 61 * fraction;
    let step: u64 = if n < 0x20_0000_0000_0000 {
        1
    } else if n < 0x40_0000_0000_0000 {
        2
    } else if n < 0x80_0000_0000_0000 {
        4
    } else if n < 0x100_0000_0000_0000 {
        8
    } else if n < 0x200_0000_0000_0000 {
        16
    } else if n < 0x400_0000_0000_0000 {
        32
    } else {
        64
    };
    proof {
        jitter_delay_is_bounded(fraction);
    }
    let q: u64 = n / step;
    let r: u64 = n % step;
    assert(q * step + r == n) by (nonlinear_arith)
        requires
            q == n / step,
            r == n % step,
            step > 0,
    ;
    let rounded: u64 = if 2 * r > step || (2 * r == step && q % 2 == 1) {
        assert((q + 1) * step == q * step + step) by (nonlinear_arith);
        (q + 1) * step
    } else {
        q * step
    };
    rounded / UNIT
}

/// What `decide` does, over its state: the state after it, whether the chain is
/// bad after it, and the action.
pub open spec fn decision(profile: Profile, state: u64, bad: bool) -> (u64, bool, Action) {
    let first = rng::next_state(state);
    let second = rng::next_state(first);
    let drawn = rng::numerator(rng::mixed(first));
    let drawn_next = rng::numerator(rng::mixed(second));
    match profile {
        Profile::Clean => (state, bad, Action::ForwardImmediate),
        Profile::Loss2 => (
            first,
            bad,
            if drawn < LOSS2_DROP_PROB {
                Action::Drop
            } else {
                Action::ForwardImmediate
            },
        ),
        Profile::Burst => {
            let now_bad = if bad {
                drawn >= BURST_BAD_TO_GOOD
            } else {
                drawn < BURST_GOOD_TO_BAD
            };
            let limit = if now_bad {
                BURST_BAD_DROP_PROB
            } else {
                BURST_GOOD_DROP_PROB
            };
            (
                second,
                now_bad,
                if drawn_next < limit {
                    Action::Drop
                } else {
                    Action::ForwardImmediate
                },
            )
        },
        Profile::Jitter30 => (
            second,
            bad,
            if drawn_next < JITTER_DUP_PROB {
                Action::ForwardImmediatePlusDelayed(jitter_ms(drawn))
            } else {
                Action::ForwardDelayed(jitter_ms(drawn))
            },
        ),
    }
}

/// Decides on datagrams in the order they arrive. The decisions depend on the
/// profile and the seed alone: no clock and no outside entropy enters them.
#[derive(Debug, Clone)]
pub struct DecisionEngine {
    rng: SplitMix64,
    profile: Profile,
    bad: bool,
}

impl DecisionEngine {
    /// The profile.
    pub closed spec fn kind(self) -> Profile {
        self.profile
    }

    /// The state of the generator.
    pub closed spec fn state(self) -> u64 {
        self.rng@
    }

    /// Whether the chain of `burst` is in its bad state.
    pub closed spec fn is_bad(self) -> bool {
        self.bad
    }

    /// An engine for a profile with a fixed seed.
    pub fn new(profile: Profile, seed: u64) -> (e: Self)
        ensures
            e.kind() == profile,
            e.state() == seed,
            !e.is_bad(),
    {
        DecisionEngine { rng: SplitMix64::new(seed), profile, bad: false }
    }

    /// Decides the fate of the next datagram.
    pub fn decide(&mut self) -> (action: Action)
        ensures
            final(self).kind() == old(self).kind(),
            (final(self).state(), final(self).is_bad(), action) == decision(
                old(self).kind(),
                old(self).state(),
                old(self).is_bad(),
            ),
            delay_of(action) matches Some(d) ==> d <= JITTER_MAX_DELAY_MS,
    {
        match self.profile {
            Profile::Clean => Action::ForwardImmediate,
            Profile::Loss2 => {
                if self.rng.next_f64() < LOSS2_DROP_PROB {
                    Action::Drop
                } else {
                    Action::ForwardImmediate
                }
            },
            Profile::Burst => {
                let drawn: u64 = self.rng.next_f64();
                if self.bad {
                    if drawn < BURST_BAD_TO_GOOD {
                        self.bad = false;
                    }
                } else if drawn < BURST_GOOD_TO_BAD {
                    self.bad = true;
                }
                let limit: u64 = if self.bad {
                    BURST_BAD_DROP_PROB
                } else {
                    BURST_GOOD_DROP_PROB
                };
                if self.rng.next_f64() < limit {
                    Action::Drop
                } else {
                    Action::ForwardImmediate
                }
            },
            Profile::Jitter30 => {
                let drawn: u64 = self.rng.next_f64();
                let delay: u64 = jitter_delay(drawn);
                if self.rng.next_f64() < JITTER_DUP_PROB {
                    Action::ForwardImmediatePlusDelayed(delay)
                } else {
                    Action::ForwardDelayed(delay)
                }
            },
        }
    }

    /// The profile of the engine.
    pub fn profile(&self) -> (p: Profile)
        ensures
            p == self.kind(),
    {
        self.profile
    }
}

/// The first `n` decisions from a state on.
pub open spec fn decisions(profile: Profile, state: u64, bad: bool, n: nat) -> Seq<Action>
    decreases n,
{
    if n == 0 {
        Seq::empty()
    } else {
        let (next, now_bad, action) = decision(profile, state, bad);
        seq![action] + decisions(profile, next, now_bad, (n - 1) as nat)
    }
}

/// A drawn fraction never delays a datagram for more than 60 ms.
pub proof fn jitter_delay_is_bounded(fraction: u64)
    requires
        fraction < UNIT,
    ensures
        0 <= rounded_to(61 * fraction, rounding_step(61 * fraction)) < 61 * UNIT,
        jitter_ms(fraction) <= JITTER_MAX_DELAY_MS,
{
    let n = 61 * fraction;
    let step = rounding_step(n);
    let q = n / step;
    let r = n % step;
    assert(q * step + r == n && 0 <= r < step) by (nonlinear_arith)
        requires
            q == n / step,
            r == n % step,
            step > 0,
    ;
    assert((q + 1) * step == q * step + step) by (nonlinear_arith);
    assert(rounded_to(n, step) <= n + step / 2) by {
        if 2 * r > step || (2 * r == step && q % 2 == 1) {
            assert(step - r <= step / 2);
        }
    }
    assert(0 <= q * step) by (nonlinear_arith)
        requires
            q >= 0,
            step > 0,
    ;
}

/// `clean` forwards every datagram at once, whatever the seed.
pub proof fn clean_forwards_everything(state: u64, bad: bool, n: nat)
    ensures
        forall|i: int|
            0 <= i < n ==> #[trigger] decisions(Profile::Clean, state, bad, n)[i]
                == Action::ForwardImmediate,
        decisions(Profile::Clean, state, bad, n).len() == n,
    decreases n,
{
    if n > 0 {
        clean_forwards_everything(state, bad, (n - 1) as nat);
    }
}

/// `loss2` and `burst` never delay or duplicate a datagram.
pub proof fn loss_profiles_only_drop(profile: Profile, state: u64, bad: bool, n: nat)
    requires
        profile == Profile::Loss2 || profile == Profile::Burst,
    ensures
        forall|i: int|
            #![trigger decisions(profile, state, bad, n)[i]]
            0 <= i < n ==> decisions(profile, state, bad, n)[i] == Action::ForwardImmediate
                || decisions(profile, state, bad, n)[i] == Action::Drop,
        decisions(profile, state, bad, n).len() == n,
    decreases n,
{
    if n > 0 {
        let (next, now_bad, _) = decision(profile, state, bad);
        loss_profiles_only_drop(profile, next, now_bad, (n - 1) as nat);
    }
}

/// `jitter30` delays every datagram, by at most 60 ms, and drops none.
pub proof fn jitter_delays_everything(state: u64, bad: bool, n: nat)
    ensures
        forall|i: int|
            #![trigger decisions(Profile::Jitter30, state, bad, n)[i]]
            0 <= i < n ==> (delay_of(decisions(Profile::Jitter30, state, bad, n)[i]) matches Some(
                d,
            ) && d <= JITTER_MAX_DELAY_MS),
        decisions(Profile::Jitter30, state, bad, n).len() == n,
    decreases n,
{
    if n > 0 {
        let (next, now_bad, _) = decision(Profile::Jitter30, state, bad);
        let drawn = rng::mixed(rng::next_state(state));
        assert(drawn >> 11 < 0x20_0000_0000_0000) by (bit_vector);
        jitter_delay_is_bounded(rng::numerator(drawn));
        jitter_delays_everything(next, now_bad, (n - 1) as nat);
    }
}

/// The decisions for the first datagrams do not depend on how many follow.
pub proof fn decisions_are_a_prefix(profile: Profile, state: u64, bad: bool, n: nat, more: nat)
    ensures
        decisions(profile, state, bad, n + more).take(n as int) == decisions(
            profile,
            state,
            bad,
            n,
        ),
        decisions(profile, state, bad, n).len() == n,
    decreases n,
{
    if n == 0 {
        assert(decisions(profile, state, bad, n + more).take(0) =~= Seq::<Action>::empty());
    } else {
        let (next, now_bad, action) = decision(profile, state, bad);
        decisions_are_a_prefix(profile, next, now_bad, (n - 1) as nat, more);
        let tail = decisions(profile, next, now_bad, (n - 1 + more) as nat);
        lemma_decision_count(profile, next, now_bad, (n - 1 + more) as nat);
        assert((seq![action] + tail).take(n as int) =~= seq![action] + tail.take(n - 1));
    }
}

proof fn lemma_decision_count(profile: Profile, state: u64, bad: bool, n: nat)
    ensures
        decisions(profile, state, bad, n).len() == n,
    decreases n,
{
    if n > 0 {
        let (next, now_bad, _) = decision(profile, state, bad);
        lemma_decision_count(profile, next, now_bad, (n - 1) as nat);
    }
}

/// The fraction that the generator draws next in a state, over 2^53.
pub open spec fn next_drawn(state: u64) -> u64 {
    rng::numerator(rng::mixed(rng::next_state(state)))
}

/// `loss2` drops a datagram if the next fraction lies below 2 in 100, and draws one
/// fraction for each.
pub proof fn loss2_drops_two_in_a_hundred(state: u64, bad: bool)
    ensures
        ({
            let (next, now_bad, action) = decision(Profile::Loss2, state, bad);
            &&& action is Drop <==> next_drawn(state) * 100 < 2 * 0x20_0000_0000_0000
            &&& action is Drop || action is ForwardImmediate
            &&& next == rng::next_state(state)
            &&& now_bad == bad
        }),
{
}

/// `burst` turns bad if the next fraction lies below 5 in 1000 and good again if it
/// lies below 5 in 100; it then drops a datagram by the fraction after that, with 1
/// in 100 in the good state and 95 in 100 in the bad one.
pub proof fn burst_follows_its_chain(state: u64, bad: bool)
    ensures
        ({
            let (next, now_bad, action) = decision(Profile::Burst, state, bad);
            let unit = 0x20_0000_0000_0000int;
            let turn = next_drawn(state);
            let fate = next_drawn(rng::next_state(state));
            &&& !bad ==> (now_bad <==> turn * 1000 < 5 * unit)
            &&& bad ==> (now_bad <==> turn * 100 >= 5 * unit)
            &&& !now_bad ==> (action is Drop <==> fate * 100 < unit)
            &&& now_bad && fate * 100 + 100 < 95 * unit ==> action is Drop
            &&& now_bad && fate * 100 >= 95 * unit ==> action is ForwardImmediate
            &&& action is Drop || action is ForwardImmediate
            &&& next == rng::next_state(rng::next_state(state))
        }),
{
}

/// `jitter30` delays by the next fraction of 61 whole milliseconds, and duplicates
/// if the fraction after that lies below 1 in 100.
pub proof fn jitter_spreads_delays(state: u64, bad: bool)
    ensures
        ({
            let (next, now_bad, action) = decision(Profile::Jitter30, state, bad);
            let unit = 0x20_0000_0000_0000int;
            let n = 61 * next_drawn(state);
            let fate = next_drawn(rng::next_state(state));
            &&& delay_of(action) matches Some(d) && d * unit <= n + 32 && n < (d + 1) * unit + 32
            &&& action is ForwardImmediatePlusDelayed <==> fate * 100 < unit
            &&& next == rng::next_state(rng::next_state(state))
        }),
{
    let fraction = next_drawn(state);
    rng::fractions_are_the_upper_bits(rng::mixed(rng::next_state(state)));
    let n = 61 * fraction;
    let step = rounding_step(n);
    let q = n / step;
    let r = n % step;
    assert(q * step + r == n && 0 <= r < step) by (nonlinear_arith)
        requires
            q == n / step,
            r == n % step,
            step > 0,
    ;
    assert((q + 1) * step == q * step + step) by (nonlinear_arith);
    let rounded = rounded_to(n, step);
    assert(n - 32 <= rounded <= n + 32);
    jitter_delay_is_bounded(fraction);
}

/// A datagram is dropped, or sent once, or twice: a dropped one has no delay and no
/// duplicate, and only one with a delay has a duplicate.
pub proof fn actions_are_told_apart(action: Action, drop: bool, delay: Option<u64>, twice: bool)
    requires
        call_ensures(Action::is_drop, (action,), drop),
        call_ensures(Action::delay, (action,), delay),
        call_ensures(Action::duplicates, (action,), twice),
    ensures
        drop <==> action is Drop,
        drop ==> delay is None && !twice,
        twice ==> delay is Some,
        !drop && delay is None ==> action is ForwardImmediate,
        delay matches Some(d) ==> action == Action::ForwardDelayed(d) || action
            == Action::ForwardImmediatePlusDelayed(d),
        twice <==> action is ForwardImmediatePlusDelayed,
{
}

/// The steps between numbers with 53 significant bits: a number from the range of a
/// step has at least 53 bits in units of it, and less than 54.
pub proof fn steps_leave_53_bits(n: int)
    requires
        0 <= n < 0x800_0000_0000_0000,
    ensures
        ({
            let step = rounding_step(n);
            &&& step >= 1
            &&& n < step * 0x20_0000_0000_0000
            &&& step > 1 ==> n >= step * 0x10_0000_0000_0000
        }),
{
}

/// Rounding gives the nearest multiple, and of two equally near ones the even one.
pub proof fn rounding_is_to_the_nearest_multiple(n: int, step: int)
    requires
        n >= 0,
        step > 0,
    ensures
        exists|m: int|
            {
                &&& #[trigger] (m * step) == rounded_to(n, step)
                &&& 2 * n - step <= 2 * (m * step) <= 2 * n + step
                &&& 2 * (m * step) == 2 * n - step || 2 * (m * step) == 2 * n + step ==> m % 2 == 0
            },
{
    let q = n / step;
    let r = n % step;
    assert(q * step + r == n && 0 <= r < step) by (nonlinear_arith)
        requires
            q == n / step,
            r == n % step,
            step > 0,
    ;
    assert((q + 1) * step == q * step + step) by (nonlinear_arith);
    let m = if 2 * r > step || (2 * r == step && q % 2 == 1) {
        q + 1
    } else {
        q
    };
    assert(m * step == rounded_to(n, step));
}

/// An engine starts good, with its seed, and every decision is that of its profile:
/// `clean` sends all, `loss2` drops 2 in 100, `burst` only drops, `jitter30` only
/// delays.
pub proof fn engines_follow_their_profile(
    profile: Profile,
    seed: u64,
    fresh: DecisionEngine,
    e: &mut DecisionEngine,
    action: Action,
    told: Profile,
)
    requires
        call_ensures(DecisionEngine::new, (profile, seed), fresh),
        *old(e) == fresh,
        call_ensures(DecisionEngine::decide, (e,), action),
        call_ensures(DecisionEngine::profile, (&*final(e),), told),
    ensures
        told == profile,
        profile is Clean ==> action is ForwardImmediate && final(e).state() == seed,
        profile is Loss2 ==> (action is Drop <==> next_drawn(seed) * 100 < 2
            * 0x20_0000_0000_0000) && (action is Drop || action is ForwardImmediate),
        profile is Burst ==> (final(e).is_bad() <==> next_drawn(seed) * 1000 < 5
            * 0x20_0000_0000_0000) && (action is Drop || action is ForwardImmediate),
        profile is Burst && !final(e).is_bad() ==> (action is Drop <==> next_drawn(
            rng::next_state(seed),
        ) * 100 < 0x20_0000_0000_0000),
        profile is Jitter30 ==> delay_of(action) is Some && (action is ForwardImmediatePlusDelayed
            <==> next_drawn(rng::next_state(seed)) * 100 < 0x20_0000_0000_0000),
        profile is Loss2 ==> final(e).state() == rng::next_state(seed),
        profile is Burst || profile is Jitter30 ==> final(e).state() == rng::next_state(
            rng::next_state(seed),
        ),
{
    loss2_drops_two_in_a_hundred(seed, false);
    burst_follows_its_chain(seed, false);
    jitter_spreads_delays(seed, false);
}

/// A name that one profile has is read as that profile, and told back as it was; all
/// other names are refused and named in the error.
pub proof fn names_are_read_as_told(which: Profile, name: &str, r: Result<Profile, String>)
    requires
        call_ensures(Profile::parse, (name,), r),
    ensures
        name@ == profile_name(which) ==> r == Ok::<Profile, String>(which),
        r matches Ok(q) ==> name@ == profile_name(q),
        name@ == "clean"@ <==> r == Ok::<Profile, String>(Profile::Clean),
        name@ == "loss2"@ <==> r == Ok::<Profile, String>(Profile::Loss2),
        name@ == "burst"@ <==> r == Ok::<Profile, String>(Profile::Burst),
        name@ == "jitter30"@ <==> r == Ok::<Profile, String>(Profile::Jitter30),
{
    if r is Ok {
        names_are_distinct(which, r->Ok_0);
        names_are_distinct(Profile::Clean, r->Ok_0);
        names_are_distinct(Profile::Loss2, r->Ok_0);
        names_are_distinct(Profile::Burst, r->Ok_0);
        names_are_distinct(Profile::Jitter30, r->Ok_0);
    } else {
        assert(name@ != profile_name(which));
        assert(name@ != profile_name(Profile::Clean));
        assert(name@ != profile_name(Profile::Loss2));
        assert(name@ != profile_name(Profile::Burst));
        assert(name@ != profile_name(Profile::Jitter30));
    }
}

/// Every profile is among the four, once.
pub proof fn all_profiles_are_listed(p: Profile, i: int, j: int)
    requires
        0 <= i < j < 4,
    ensures
        Profile::ALL@.len() == 4,
        Profile::ALL@.contains(p),
        Profile::ALL@[i] != Profile::ALL@[j],
{
    let all = Profile::ALL@;
    assert(all[0] == Profile::Clean && all[1] == Profile::Loss2);
    assert(all[2] == Profile::Burst && all[3] == Profile::Jitter30);
    assert(i == 0 || i == 1 || i == 2);
    assert(j == 1 || j == 2 || j == 3);
}

/// The name that a profile tells is read as that profile.
pub proof fn told_names_are_read_back(
    p: Profile,
    name: &'static str,
    r: Result<Profile, String>,
)
    requires
        call_ensures(Profile::as_str, (p,), name),
        call_ensures(Profile::parse, (name,), r),
    ensures
        r == Ok::<Profile, String>(p),
        p is Clean <==> name@ == "clean"@,
        p is Loss2 <==> name@ == "loss2"@,
        p is Burst <==> name@ == "burst"@,
        p is Jitter30 <==> name@ == "jitter30"@,
{
    names_are_read_as_told(p, name, r);
    names_are_distinct(p, Profile::Clean);
    names_are_distinct(p, Profile::Loss2);
    names_are_distinct(p, Profile::Burst);
    names_are_distinct(p, Profile::Jitter30);
}

/// In the bad state `burst` drops below the double nearest to 95 in 100, and no delay of
/// `jitter30` exceeds 60 ms.
pub proof fn bad_state_and_longest_delay(state: u64, bad: bool)
    ensures
        ({
            let (_, now_bad, action) = decision(Profile::Burst, state, bad);
            let fate = next_drawn(rng::next_state(state));
            now_bad ==> (action is Drop <==> fate < 8_556_839_292_003_942)
        }),
        delay_of(decision(Profile::Jitter30, state, bad).2) matches Some(d) && d <= 60,
{
    let drawn = rng::mixed(rng::next_state(state));
    assert(drawn >> 11 < 0x20_0000_0000_0000) by (bit_vector);
    jitter_delay_is_bounded(rng::numerator(drawn));
}

} // verus!
