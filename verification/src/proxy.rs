//! The lossy proxy: a one-way forwarder that drops, delays and duplicates
//! datagrams by a profile.
//!
//! The proxy only decides and keeps the books. Its owner receives datagrams,
//! sends what the decisions ask for, and reports what was sent.

use vstd::prelude::*;

use crate::delay;
use crate::delay::DelayQueue;
use crate::profile;
use crate::profile::Action;
use crate::profile::DecisionEngine;
use crate::profile::Profile;
use crate::text;
use crate::text::push_decimal;

verus! {

/// The seed that is used where none is given.
pub const DEFAULT_SEED: u64 = 0xA7B0_094A_5EED_A11C;

/// The largest payload of a UDP datagram.
pub const MAX_DATAGRAM: usize = 65_507;

/// Seconds between statistics lines.
pub const STATS_INTERVAL_SECS: u64 = 5;

/// Nanoseconds in a millisecond.
pub const NANOS_PER_MS: u64 = 1_000_000;

/// Where to listen, where to forward to, and how.
#[derive(Debug, Clone, Copy, PartialEq, Eq)]
pub struct ProxyConfig<A> {
    /// The address datagrams come in on.
    pub listen: A,
    /// The address datagrams are forwarded to.
    pub forward: A,
    /// The profile to apply.
    pub profile: Profile,
    /// The seed of the decisions.
    pub seed: u64,
}

impl<A> ProxyConfig<A> {
    /// A configuration with the default seed.
    pub fn new(listen: A, forward: A, profile: Profile) -> (c: Self)
        ensures
            c == (ProxyConfig { listen, forward, profile, seed: DEFAULT_SEED }),
    {
        ProxyConfig { listen, forward, profile, seed: DEFAULT_SEED }
    }

    /// The configuration with another seed.
    pub fn with_seed(self, seed: u64) -> (c: Self)
        ensures
            c == (ProxyConfig { seed, ..self }),
    {
        ProxyConfig { listen: self.listen, forward: self.forward, profile: self.profile, seed }
    }
}

/// Forwarding counters.
#[derive(Debug, Clone, Copy, PartialEq, Eq, Structural)]
pub struct ProxyStats {
    /// Datagrams sent: at once, delayed, and duplicates.
    pub forwarded: u64,
    /// Datagrams dropped by the profile.
    pub dropped: u64,
    /// Duplicates sent.
    pub duplicated: u64,
    /// Datagrams put on the delay path.
    pub delayed: u64,
}

impl Default for ProxyStats {
    fn default() -> (s: Self)
        ensures
            s == (ProxyStats { forwarded: 0, dropped: 0, duplicated: 0, delayed: 0 }),
    {
        ProxyStats { forwarded: 0, dropped: 0, duplicated: 0, delayed: 0 }
    }
}

impl ProxyStats {
    /// No counter is at its end.
    pub open spec fn has_room(self) -> bool {
        &&& self.forwarded < u64::MAX
        &&& self.dropped < u64::MAX
        &&& self.duplicated < u64::MAX
        &&& self.delayed < u64::MAX
    }

    /// The statistics line after `secs` seconds.
    pub open spec fn line(self, secs: u64) -> Seq<char> {
        "PROXY t="@ + text::decimal(secs as nat) + " forwarded="@ + text::decimal(
            self.forwarded as nat,
        ) + " dropped="@ + text::decimal(self.dropped as nat) + " dup="@ + text::decimal(
            self.duplicated as nat,
        ) + " delayed="@ + text::decimal(self.delayed as nat)
    }

    /// Whether no counter is at its end.
    pub fn counters_have_room(&self) -> (r: bool)
        ensures
            r == self.has_room(),
    {
        self.forwarded < u64::MAX && self.dropped < u64::MAX && self.duplicated < u64::MAX
            && self.delayed < u64::MAX
    }

    /// The statistics line: `PROXY t=<seconds> forwarded=N dropped=D dup=DUP
    /// delayed=X`.
    pub fn render(&self, secs: u64) -> (line: String)
        ensures
            line@ == self.line(secs),
    {
        let mut line = String::new();
        line.append("PROXY t=");
        push_decimal(&mut line, secs);
        line.append(" forwarded=");
        push_decimal(&mut line, self.forwarded);
        line.append(" dropped=");
        push_decimal(&mut line, self.dropped);
        line.append(" dup=");
        push_decimal(&mut line, self.duplicated);
        line.append(" delayed=");
        push_decimal(&mut line, self.delayed);
        assert(line@ =~= self.line(secs));
        line
    }
}

/// The proxy as the contracts see it.
pub ghost struct ProxyView {
    pub profile: Profile,
    /// The generator's state, and whether the `burst` chain is bad.
    pub state: u64,
    pub bad: bool,
    /// What waits, with its deadlines in nanoseconds.
    pub waiting: Seq<(u64, Vec<u8>)>,
    pub forwarded: int,
    pub dropped: int,
    pub duplicated: int,
    pub delayed: int,
}

/// A proxy that has seen nothing.
pub open spec fn initial(profile: Profile, seed: u64) -> ProxyView {
    ProxyView {
        profile,
        state: seed,
        bad: false,
        waiting: Seq::empty(),
        forwarded: 0,
        dropped: 0,
        duplicated: 0,
        delayed: 0,
    }
}

/// The action for the next datagram, and the proxy that decided it.
pub open spec fn decided(v: ProxyView) -> (ProxyView, Action) {
    let (state, bad, action) = profile::decision(v.profile, v.state, v.bad);
    (ProxyView { state, bad, ..v }, action)
}

/// The proxy after an action was carried out on a datagram at `now`.
pub open spec fn carried_out(v: ProxyView, action: Action, payload: Vec<u8>, now: u64) -> ProxyView {
    match action {
        Action::ForwardImmediate => ProxyView { forwarded: v.forwarded + 1, ..v },
        Action::Drop => ProxyView { dropped: v.dropped + 1, ..v },
        Action::ForwardDelayed(ms) => ProxyView {
            waiting: delay::scheduled(v.waiting, (now + ms * NANOS_PER_MS) as u64, payload),
            delayed: v.delayed + 1,
            ..v
        },
        Action::ForwardImmediatePlusDelayed(ms) => ProxyView {
            waiting: delay::scheduled(v.waiting, (now + ms * NANOS_PER_MS) as u64, payload),
            forwarded: v.forwarded + 1,
            duplicated: v.duplicated + 1,
            delayed: v.delayed + 1,
            ..v
        },
    }
}

/// Counters after an action was carried out.
pub open spec fn counted(s: ProxyStats, action: Action) -> ProxyStats {
    match action {
        Action::ForwardImmediate => ProxyStats { forwarded: (s.forwarded + 1) as u64, ..s },
        Action::Drop => ProxyStats { dropped: (s.dropped + 1) as u64, ..s },
        Action::ForwardDelayed(_) => ProxyStats { delayed: (s.delayed + 1) as u64, ..s },
        Action::ForwardImmediatePlusDelayed(_) => ProxyStats {
            forwarded: (s.forwarded + 1) as u64,
            duplicated: (s.duplicated + 1) as u64,
            delayed: (s.delayed + 1) as u64,
            ..s
        },
    }
}

/// The datagrams due at `now`, and the proxy without them.
pub open spec fn released(v: ProxyView, now: u64) -> (ProxyView, Seq<Vec<u8>>) {
    let n = delay::due(v.waiting, now) as int;
    (ProxyView { waiting: v.waiting.skip(n), ..v }, delay::items(v.waiting.take(n)))
}

/// The state of the proxy.
pub struct Proxy {
    engine: DecisionEngine,
    queue: DelayQueue<Vec<u8>>,
    stats: ProxyStats,
}

impl View for Proxy {
    type V = ProxyView;

    closed spec fn view(&self) -> ProxyView {
        ProxyView {
            profile: self.engine.kind(),
            state: self.engine.state(),
            bad: self.engine.is_bad(),
            waiting: self.queue@,
            forwarded: self.stats.forwarded as int,
            dropped: self.stats.dropped as int,
            duplicated: self.stats.duplicated as int,
            delayed: self.stats.delayed as int,
        }
    }
}

impl Proxy {
    /// What waits is in the order of the deadlines.
    pub closed spec fn wf(self) -> bool {
        self.queue.wf()
    }

    /// The counters so far.
    pub closed spec fn counters(self) -> ProxyStats {
        self.stats
    }

    /// A proxy for a profile and a seed.
    pub fn new(profile: Profile, seed: u64) -> (p: Self)
        ensures
            p.wf(),
            p@ == initial(profile, seed),
            p.counters() == (ProxyStats { forwarded: 0, dropped: 0, duplicated: 0, delayed: 0 }),
    {
        let p = Proxy {
            engine: DecisionEngine::new(profile, seed),
            queue: DelayQueue::new(),
            stats: ProxyStats::default(),
        };
        assert(p@.waiting =~= Seq::<(u64, Vec<u8>)>::empty());
        p
    }

    /// Decides on the next datagram. The owner carries the action out and
    /// reports it with `settle`.
    pub fn decide(&mut self) -> (action: Action)
        requires
            old(self).wf(),
        ensures
            final(self).wf(),
            (final(self)@, action) == decided(old(self)@),
            final(self).counters() == old(self).counters(),
            profile::delay_of(action) matches Some(ms) ==> ms <= profile::JITTER_MAX_DELAY_MS,
    {
        self.engine.decide()
    }

    /// Whether an action sends a copy at once.
    pub fn sends_at_once(action: Action) -> (r: bool)
        ensures
            r == (action is ForwardImmediate || action is ForwardImmediatePlusDelayed),
    {
        match action {
            Action::ForwardImmediate => true,
            Action::ForwardImmediatePlusDelayed(_) => true,
            _ => false,
        }
    }

    /// Books an action whose immediate copy, if it has one, was sent, and
    /// schedules the delayed copy, counting its delay from `now`.
    pub fn settle(&mut self, action: Action, payload: Vec<u8>, now: u64)
        requires
            old(self).wf(),
            old(self).counters().has_room(),
            profile::delay_of(action) matches Some(ms) ==> now + ms * NANOS_PER_MS <= u64::MAX,
        ensures
            final(self).wf(),
            final(self)@ == carried_out(old(self)@, action, payload, now),
            final(self).counters() == counted(old(self).counters(), action),
    {
        match action {
            Action::ForwardImmediate => {
                self.stats.forwarded = self.stats.forwarded + 1;
            },
            Action::Drop => {
                self.stats.dropped = self.stats.dropped + 1;
            },
            Action::ForwardDelayed(ms) => {
                assert(ms * NANOS_PER_MS <= u64::MAX);
                self.queue.push(now + ms * NANOS_PER_MS, payload);
                self.stats.delayed = self.stats.delayed + 1;
            },
            Action::ForwardImmediatePlusDelayed(ms) => {
                assert(ms * NANOS_PER_MS <= u64::MAX);
                self.stats.forwarded = self.stats.forwarded + 1;
                self.stats.duplicated = self.stats.duplicated + 1;
                self.queue.push(now + ms * NANOS_PER_MS, payload);
                self.stats.delayed = self.stats.delayed + 1;
            },
        }
    }

    /// When the next delayed datagram is due, in nanoseconds.
    pub fn deadline(&self) -> (d: Option<u64>)
        requires
            self.wf(),
        ensures
            d == (if self@.waiting.len() == 0 {
                None
            } else {
                Some(self@.waiting[0].0)
            }),
    {
        self.queue.deadline()
    }

    /// Takes out the delayed datagrams that are due, in the order to send them.
    /// The owner reports each one sent with `note_sent`.
    pub fn release(&mut self, now: u64) -> (payloads: Vec<Vec<u8>>)
        requires
            old(self).wf(),
        ensures
            final(self).wf(),
            (final(self)@, payloads@) == released(old(self)@, now),
            final(self).counters() == old(self).counters(),
    {
        self.queue.pop_expired(now)
    }

    /// Counts one delayed datagram that was sent.
    pub fn note_sent(&mut self)
        requires
            old(self).wf(),
            old(self).counters().has_room(),
        ensures
            final(self).wf(),
            final(self)@ == (ProxyView { forwarded: old(self)@.forwarded + 1, ..old(self)@ }),
            final(self).counters() == (ProxyStats {
                forwarded: (old(self).counters().forwarded + 1) as u64,
                ..old(self).counters()
            }),
    {
        self.stats.forwarded = self.stats.forwarded + 1;
    }

    /// The counters so far.
    pub fn stats(&self) -> (s: ProxyStats)
        ensures
            s == self.counters(),
            s.forwarded == self@.forwarded,
            s.dropped == self@.dropped,
            s.duplicated == self@.duplicated,
            s.delayed == self@.delayed,
    {
        self.stats
    }
}

/// What happens to a proxy.
pub ghost enum ProxyEvent {
    /// A datagram came in and its action was carried out, at that time.
    Datagram(Vec<u8>, u64),
    /// The due datagrams were released and sent, at that time.
    Wake(u64),
}

/// The proxy after an event.
pub open spec fn stepped(v: ProxyView, event: ProxyEvent) -> ProxyView {
    match event {
        ProxyEvent::Datagram(payload, now) => {
            let (after, action) = decided(v);
            carried_out(after, action, payload, now)
        },
        ProxyEvent::Wake(now) => {
            let (after, sent) = released(v, now);
            ProxyView { forwarded: after.forwarded + sent.len(), ..after }
        },
    }
}

/// The proxy after a history of events.
pub open spec fn run(profile: Profile, seed: u64, events: Seq<ProxyEvent>) -> ProxyView
    decreases events.len(),
{
    if events.len() == 0 {
        initial(profile, seed)
    } else {
        stepped(run(profile, seed, events.drop_last()), events.last())
    }
}

/// How many datagrams came in.
pub open spec fn datagrams(events: Seq<ProxyEvent>) -> int
    decreases events.len(),
{
    if events.len() == 0 {
        0
    } else {
        datagrams(events.drop_last()) + (if events.last() is Datagram {
            1int
        } else {
            0
        })
    }
}

/// The books of a proxy after `n` datagrams: each one was sent, was dropped by
/// the profile, or waits, duplicates counted apart; and only what was put on the
/// delay path waits.
pub open spec fn books_balance(v: ProxyView, n: int) -> bool {
    &&& v.forwarded - v.duplicated + v.dropped + v.waiting.len() == n
    &&& v.waiting.len() <= v.delayed <= v.forwarded - v.duplicated + v.waiting.len()
    &&& 0 <= v.duplicated <= v.delayed
    &&& delay::ordered(v.waiting)
}

/// Every datagram is accounted for: it was sent, it was dropped by the profile,
/// or it waits.
pub proof fn every_datagram_is_accounted_for(profile: Profile, seed: u64, events: Seq<ProxyEvent>)
    ensures
        books_balance(run(profile, seed, events), datagrams(events)),
    decreases events.len(),
{
    if events.len() > 0 {
        let before = run(profile, seed, events.drop_last());
        every_datagram_is_accounted_for(profile, seed, events.drop_last());
        match events.last() {
            ProxyEvent::Datagram(payload, now) => {
                let (after, action) = decided(before);
                lemma_action_keeps_books(
                    after,
                    action,
                    payload,
                    now,
                    datagrams(events.drop_last()),
                );
            },
            ProxyEvent::Wake(now) => {
                lemma_release_keeps_books(before, now, datagrams(events.drop_last()));
            },
        }
    }
}

proof fn lemma_action_keeps_books(
    v: ProxyView,
    action: Action,
    payload: Vec<u8>,
    now: u64,
    n: int,
)
    requires
        books_balance(v, n),
    ensures
        books_balance(carried_out(v, action, payload, now), n + 1),
{
    match profile::delay_of(action) {
        Some(ms) => {
            let deadline = (now + ms * NANOS_PER_MS) as u64;
            delay::scheduling_keeps_order(v.waiting, deadline, payload);
            delay::exactly_the_due_leave(v.waiting, deadline);
        },
        None => {},
    }
}

proof fn lemma_release_keeps_books(v: ProxyView, now: u64, n: int)
    requires
        books_balance(v, n),
    ensures
        books_balance(stepped(v, ProxyEvent::Wake(now)), n),
{
    delay::exactly_the_due_leave(v.waiting, now);
    let k = delay::due(v.waiting, now) as int;
    let rest = v.waiting.skip(k);
    assert forall|i: int, j: int| 0 <= i <= j < rest.len() implies (#[trigger] rest[i]).0 <= (
    #[trigger] rest[j]).0 by {
        assert(rest[i] == v.waiting[i + k]);
        assert(rest[j] == v.waiting[j + k]);
    }
}

/// `clean` is transparent: every datagram was sent, once, and none waits.
pub proof fn clean_is_transparent(seed: u64, events: Seq<ProxyEvent>)
    ensures
        ({
            let v = run(Profile::Clean, seed, events);
            &&& v.profile == Profile::Clean
            &&& v.forwarded == datagrams(events)
            &&& v.dropped == 0
            &&& v.duplicated == 0
            &&& v.delayed == 0
            &&& v.waiting.len() == 0
        }),
    decreases events.len(),
{
    if events.len() > 0 {
        clean_is_transparent(seed, events.drop_last());
    }
}

/// `jitter30` loses nothing: every datagram was sent or waits.
pub proof fn jitter_loses_nothing(seed: u64, events: Seq<ProxyEvent>)
    ensures
        ({
            let v = run(Profile::Jitter30, seed, events);
            &&& v.profile == Profile::Jitter30
            &&& v.dropped == 0
            &&& v.delayed == datagrams(events)
        }),
    decreases events.len(),
{
    if events.len() > 0 {
        jitter_loses_nothing(seed, events.drop_last());
    }
}

/// The actions decided in a history depend on the profile, the seed and the
/// number of datagrams alone: times, payloads and wake-ups have no part in them.
pub proof fn decisions_ignore_time_and_content(
    profile: Profile,
    seed: u64,
    events: Seq<ProxyEvent>,
    others: Seq<ProxyEvent>,
)
    requires
        datagrams(events) == datagrams(others),
    ensures
        decided(run(profile, seed, events)).1 == decided(run(profile, seed, others)).1,
{
    lemma_state_of_history(profile, seed, events);
    lemma_state_of_history(profile, seed, others);
}

/// The generator's state after `n` decisions.
spec fn state_after(profile: Profile, seed: u64, n: nat) -> (u64, bool)
    decreases n,
{
    if n == 0 {
        (seed, false)
    } else {
        let (state, bad) = state_after(profile, seed, (n - 1) as nat);
        let (next, now_bad, _) = profile::decision(profile, state, bad);
        (next, now_bad)
    }
}

proof fn lemma_state_of_history(profile: Profile, seed: u64, events: Seq<ProxyEvent>)
    ensures
        0 <= datagrams(events),
        ({
            let v = run(profile, seed, events);
            &&& v.profile == profile
            &&& (v.state, v.bad) == state_after(profile, seed, datagrams(events) as nat)
        }),
    decreases events.len(),
{
    if events.len() > 0 {
        lemma_state_of_history(profile, seed, events.drop_last());
    }
}

/// Whatever is sent is the datagram that came in: a copy goes out at once exactly
/// where it is counted at once, and a delayed copy waits, unchanged, until its delay
/// from now is over.
pub proof fn actions_are_carried_out(
    v: ProxyView,
    action: Action,
    payload: Vec<u8>,
    now: u64,
    at_once: bool,
)
    requires
        delay::ordered(v.waiting),
        profile::delay_of(action) matches Some(ms) ==> now + ms * 1_000_000 <= u64::MAX,
        call_ensures(Proxy::sends_at_once, (action,), at_once),
    ensures
        ({
            let after = carried_out(v, action, payload, now);
            &&& after.forwarded - v.forwarded == (if at_once {
                1int
            } else {
                0
            })
            &&& after.dropped - v.dropped == (if action is Drop {
                1int
            } else {
                0
            })
            &&& after.duplicated - v.duplicated == (if action is ForwardImmediatePlusDelayed {
                1int
            } else {
                0
            })
            &&& after.delayed - v.delayed == after.waiting.len() - v.waiting.len()
            &&& action is Drop ==> !at_once && after.waiting == v.waiting
            &&& action is ForwardImmediate ==> at_once && after.waiting == v.waiting
            &&& profile::delay_of(action) matches Some(ms) ==> after.waiting.contains(
                ((now + ms * 1_000_000) as u64, payload),
            )
            &&& forall|i: int|
                0 <= i < v.waiting.len() ==> after.waiting.contains(#[trigger] v.waiting[i])
            &&& delay::ordered(after.waiting)
            &&& after.profile == v.profile && after.state == v.state && after.bad == v.bad
        }),
{
    let after = carried_out(v, action, payload, now);
    match profile::delay_of(action) {
        Some(ms) => {
            let deadline = (now + ms * NANOS_PER_MS) as u64;
            delay::scheduling_keeps_order(v.waiting, deadline, payload);
            delay::exactly_the_due_leave(v.waiting, deadline);
            let n = delay::due(v.waiting, deadline) as int;
            assert(after.waiting[n] == (deadline, payload));
            assert forall|i: int| 0 <= i < v.waiting.len() implies after.waiting.contains(
                #[trigger] v.waiting[i],
            ) by {
                if i < n {
                    assert(after.waiting[i] == v.waiting[i]);
                } else {
                    assert(after.waiting[i + 1] == v.waiting[i]);
                }
            }
        },
        None => {},
    }
}

/// A wake-up lets go what is due, all of it and nothing else, in the order of the
/// deadlines; what is not due goes on waiting, and nothing is counted by that.
pub proof fn only_what_is_due_is_released(v: ProxyView, now: u64)
    requires
        delay::ordered(v.waiting),
    ensures
        ({
            let (after, sent) = released(v, now);
            let n = v.waiting.len() - after.waiting.len();
            &&& 0 <= n == sent.len()
            &&& after.waiting == v.waiting.skip(n)
            &&& forall|i: int|
                0 <= i < n ==> (#[trigger] v.waiting[i]).0 <= now && sent[i] == v.waiting[i].1
            &&& forall|i: int| 0 <= i < after.waiting.len() ==> (#[trigger] after.waiting[i]).0
                > now
            &&& after.forwarded == v.forwarded && after.dropped == v.dropped
            &&& after.duplicated == v.duplicated && after.delayed == v.delayed
        }),
{
    delay::exactly_the_due_leave(v.waiting, now);
    let n = delay::due(v.waiting, now) as int;
    let (after, sent) = released(v, now);
    assert forall|i: int| 0 <= i < after.waiting.len() implies (#[trigger] after.waiting[i]).0
        > now by {
        assert(after.waiting[i] == v.waiting[n + i]);
    }
}

/// The counters count what the books count.
pub proof fn counters_follow_the_books(
    s: ProxyStats,
    v: ProxyView,
    action: Action,
    payload: Vec<u8>,
    now: u64,
)
    requires
        s.has_room(),
        s.forwarded == v.forwarded,
        s.dropped == v.dropped,
        s.duplicated == v.duplicated,
        s.delayed == v.delayed,
    ensures
        ({
            let t = counted(s, action);
            let after = carried_out(v, action, payload, now);
            &&& t.forwarded == after.forwarded && t.dropped == after.dropped
            &&& t.duplicated == after.duplicated && t.delayed == after.delayed
        }),
{
}

/// The line tells the time and every counter under its name.
pub proof fn line_tells_every_count(s: ProxyStats, secs: u64)
    ensures
        text::tells(s.line(secs), "PROXY t="@, secs as nat),
        text::tells(s.line(secs), " forwarded="@, s.forwarded as nat),
        text::tells(s.line(secs), " dropped="@, s.dropped as nat),
        text::tells(s.line(secs), " dup="@, s.duplicated as nat),
        text::tells(s.line(secs), " delayed="@, s.delayed as nat),
{
    let line = s.line(secs);
    reveal_strlit("PROXY t=");
    reveal_strlit(" forwarded=");
    reveal_strlit(" dropped=");
    reveal_strlit(" dup=");
    reveal_strlit(" delayed=");
    let before0 = Seq::<char>::empty();
    let before1 = before0 + "PROXY t="@ + text::decimal(secs as nat);
    let before2 = before1 + " forwarded="@ + text::decimal(s.forwarded as nat);
    let before3 = before2 + " dropped="@ + text::decimal(s.dropped as nat);
    let before4 = before3 + " dup="@ + text::decimal(s.duplicated as nat);
    let after4 = Seq::<char>::empty();
    let after3 = " delayed="@ + text::decimal(s.delayed as nat) + after4;
    let after2 = " dup="@ + text::decimal(s.duplicated as nat) + after3;
    let after1 = " dropped="@ + text::decimal(s.dropped as nat) + after2;
    let after0 = " forwarded="@ + text::decimal(s.forwarded as nat) + after1;
    assert(line =~= before0 + "PROXY t="@ + text::decimal(secs as nat) + after0);
    text::lemma_tells(line, before0, "PROXY t="@, secs as nat, after0);
    assert(line =~= before1 + " forwarded="@ + text::decimal(s.forwarded as nat) + after1);
    text::lemma_tells(line, before1, " forwarded="@, s.forwarded as nat, after1);
    assert(line =~= before2 + " dropped="@ + text::decimal(s.dropped as nat) + after2);
    text::lemma_tells(line, before2, " dropped="@, s.dropped as nat, after2);
    assert(line =~= before3 + " dup="@ + text::decimal(s.duplicated as nat) + after3);
    text::lemma_tells(line, before3, " dup="@, s.duplicated as nat, after3);
    assert(line =~= before4 + " delayed="@ + text::decimal(s.delayed as nat) + after4);
    text::lemma_tells(line, before4, " delayed="@, s.delayed as nat, after4);
}

/// An action is booked once, under its name: what was sent at once as forwarded, what
/// was dropped as dropped, a duplicate as one, and what waits as delayed; only the
/// last is queued, for its delay from now.
pub proof fn actions_are_booked(p: &mut Proxy, action: Action, payload: Vec<u8>, now: u64, at_once: bool)
    requires
        old(p).counters().has_room(),
        call_ensures(Proxy::settle, (p, action, payload, now), ()),
        call_ensures(Proxy::sends_at_once, (action,), at_once),
    ensures
        ({
            let s = old(p).counters();
            let t = final(p).counters();
            let waits = profile::delay_of(action) is Some;
            &&& t.forwarded - s.forwarded == (if at_once {
                1int
            } else {
                0
            })
            &&& t.dropped - s.dropped == (if action is Drop {
                1int
            } else {
                0
            })
            &&& t.delayed - s.delayed == (if waits {
                1int
            } else {
                0
            })
            &&& t.duplicated - s.duplicated == (if at_once && waits {
                1int
            } else {
                0
            })
            &&& action is Drop <==> !at_once && !waits
            &&& !waits ==> final(p)@.waiting == old(p)@.waiting
            &&& action matches Action::ForwardDelayed(ms) ==> final(p)@.waiting == delay::scheduled(
                old(p)@.waiting,
                (now + ms * 1_000_000) as u64,
                payload,
            )
            &&& action matches Action::ForwardImmediatePlusDelayed(ms) ==> final(p)@.waiting
                == delay::scheduled(old(p)@.waiting, (now + ms * 1_000_000) as u64, payload)
            &&& final(p)@.profile == old(p)@.profile && final(p)@.state == old(p)@.state
            &&& final(p)@.bad == old(p)@.bad
        }),
{
}

/// A release takes the datagrams that are due from the front of what waits and counts
/// nothing; each one sent then counts as forwarded.
pub proof fn releases_take_what_is_due(
    p: &mut Proxy,
    now: u64,
    out: Vec<Vec<u8>>,
    q: &mut Proxy,
    i: int,
)
    requires
        old(p).wf(),
        delay::ordered(old(p)@.waiting),
        call_ensures(Proxy::release, (p, now), out),
        old(q).counters().has_room(),
        call_ensures(Proxy::note_sent, (q,), ()),
        0 <= i < old(p)@.waiting.len(),
    ensures
        out@.len() + final(p)@.waiting.len() == old(p)@.waiting.len(),
        i < out@.len() ==> out@[i] == old(p)@.waiting[i].1 && old(p)@.waiting[i].0 <= now,
        i >= out@.len() ==> final(p)@.waiting[i - out@.len()] == old(p)@.waiting[i]
            && old(p)@.waiting[i].0 > now,
        final(p).counters() == old(p).counters(),
        final(p)@.profile == old(p)@.profile && final(p)@.state == old(p)@.state,
        final(q).counters().forwarded - old(q).counters().forwarded == 1,
        final(q).counters().dropped == old(q).counters().dropped,
        final(q).counters().duplicated == old(q).counters().duplicated,
        final(q).counters().delayed == old(q).counters().delayed,
        final(q)@.waiting == old(q)@.waiting,
{
    delay::exactly_the_due_leave(old(p)@.waiting, now);
}

/// A decision follows the profile and its seed, and books nothing.
pub proof fn decisions_follow_the_profile(p: &mut Proxy, action: Action)
    requires
        call_ensures(Proxy::decide, (p,), action),
    ensures
        final(p).counters() == old(p).counters(),
        final(p)@.waiting == old(p)@.waiting,
        final(p)@.profile == old(p)@.profile,
        old(p)@.profile is Clean ==> action is ForwardImmediate && final(p)@.state
            == old(p)@.state,
        old(p)@.profile is Loss2 ==> (action is Drop <==> profile::next_drawn(old(p)@.state) * 100
            < 2 * 0x20_0000_0000_0000),
        old(p)@.profile is Loss2 || old(p)@.profile is Burst ==> action is Drop
            || action is ForwardImmediate,
        old(p)@.profile is Jitter30 <==> profile::delay_of(action) is Some,
{
    profile::loss2_drops_two_in_a_hundred(old(p)@.state, old(p)@.bad);
    profile::burst_follows_its_chain(old(p)@.state, old(p)@.bad);
    profile::jitter_spreads_delays(old(p)@.state, old(p)@.bad);
}

/// The line of a proxy tells the seconds and all its counts.
pub proof fn proxies_tell_their_counts(s: &ProxyStats, secs: u64, line: String)
    requires
        call_ensures(ProxyStats::render, (s, secs), line),
    ensures
        text::tells(line@, " forwarded="@, s.forwarded as nat),
        text::tells(line@, " dropped="@, s.dropped as nat),
        text::tells(line@, " dup="@, s.duplicated as nat),
        text::tells(line@, " delayed="@, s.delayed as nat),
{
    line_tells_every_count(*s, secs);
}

/// A configuration has the addresses and the profile it was given, and the default seed
/// until another is set.
pub proof fn configurations_keep_what_they_were_given<A>(
    listen: A,
    forward: A,
    profile: Profile,
    c: ProxyConfig<A>,
    seed: u64,
    d: ProxyConfig<A>,
)
    requires
        call_ensures(ProxyConfig::<A>::new, (listen, forward, profile), c),
        call_ensures(ProxyConfig::<A>::with_seed, (c, seed), d),
    ensures
        c.listen == listen && c.forward == forward && c.profile == profile,
        c.seed == 0xA7B0_094A_5EED_A11C,
        d.listen == listen && d.forward == forward && d.profile == profile && d.seed == seed,
{
}

/// A proxy starts with its profile and seed and empty books, tells its counters, and
/// waits for the first of what is delayed.
pub proof fn proxies_start_with_empty_books(
    profile: Profile,
    seed: u64,
    fresh: Proxy,
    p: &Proxy,
    s: ProxyStats,
    first: Option<u64>,
)
    requires
        call_ensures(Proxy::new, (profile, seed), fresh),
        call_ensures(Proxy::stats, (p,), s),
        call_ensures(Proxy::deadline, (p,), first),
    ensures
        fresh@.profile == profile && fresh@.state == seed && !fresh@.bad,
        fresh@.waiting.len() == 0,
        fresh.counters().forwarded == 0 && fresh.counters().dropped == 0,
        fresh.counters().duplicated == 0 && fresh.counters().delayed == 0,
        s == p.counters(),
        first is None <==> p@.waiting.len() == 0,
        first matches Some(d) ==> d == p@.waiting[0].0,
        MAX_DATAGRAM == 0xFFFF - 28,
        STATS_INTERVAL_SECS == 5,
{
}

/// The line of a proxy begins with the seconds.
pub proof fn proxies_tell_the_time(s: &ProxyStats, secs: u64, line: String)
    requires
        call_ensures(ProxyStats::render, (s, secs), line),
    ensures
        text::tells(line@, "PROXY t="@, secs as nat),
{
    reveal_strlit(" forwarded=");
    let after = " forwarded="@ + text::decimal(s.forwarded as nat) + " dropped="@ + text::decimal(
        s.dropped as nat,
    ) + " dup="@ + text::decimal(s.duplicated as nat) + " delayed="@ + text::decimal(
        s.delayed as nat,
    );
    let before = Seq::<char>::empty();
    assert(line@ =~= before + "PROXY t="@ + text::decimal(secs as nat) + after);
    text::lemma_tells(line@, before, "PROXY t="@, secs as nat, after);
}

} // verus!
