//! Sequence numbers modulo 2^16.

use vstd::prelude::*;

verus! {

/// What a received sequence number says about the stream.
#[derive(Debug, Clone, Copy, PartialEq, Eq, Structural)]
pub enum SeqEvent {
    /// Exactly the expected number.
    InOrder,
    /// A jump forward: that many packets (1 to 32767) are presumed lost.
    Gap(u16),
    /// The number received last, once more.
    Duplicate,
    /// A number behind the expected one: a reordering or a stale packet.
    Reorder,
}

/// How far `seq` lies ahead of `expected`, modulo 2^16.
pub open spec fn distance(expected: u16, seq: u16) -> int {
    (seq - expected) % 0x1_0000
}

/// The number after `seq`, modulo 2^16.
pub open spec fn successor(seq: u16) -> u16 {
    ((seq + 1) % 0x1_0000) as u16
}

/// The event of `seq` in a stream that expects `expected` and saw `last` last.
pub open spec fn classify(expected: u16, last: Option<u16>, seq: u16) -> SeqEvent {
    if seq == expected {
        SeqEvent::InOrder
    } else if last == Some(seq) {
        SeqEvent::Duplicate
    } else if distance(expected, seq) < 32768 {
        SeqEvent::Gap(distance(expected, seq) as u16)
    } else {
        SeqEvent::Reorder
    }
}

/// Tracks the expected sequence number of one direction of a packet stream.
#[derive(Debug, Clone, PartialEq, Eq)]
pub struct SeqTracker {
    expected: u16,
    last: Option<u16>,
}

impl SeqTracker {
    /// The next expected sequence number.
    pub closed spec fn expected_seq(self) -> u16 {
        self.expected
    }

    /// The sequence number seen last, if any.
    pub closed spec fn last_seq(self) -> Option<u16> {
        self.last
    }

    /// What every tracker keeps: the expected number follows the last one, and
    /// is 0 before the first.
    pub open spec fn wf(self) -> bool {
        self.expected_seq() == (match self.last_seq() {
            Some(last) => successor(last),
            None => 0,
        })
    }

    /// A tracker that expects 0 first.
    pub fn new() -> (t: Self)
        ensures
            t.wf(),
            t.expected_seq() == 0,
            t.last_seq() == None::<u16>,
    {
        SeqTracker { expected: 0, last: None }
    }

    /// Classifies the next received sequence number and moves on to it.
    pub fn update(&mut self, seq: u16) -> (event: SeqEvent)
        ensures
            event == classify(old(self).expected_seq(), old(self).last_seq(), seq),
            final(self).last_seq() == Some(seq),
            final(self).expected_seq() == successor(seq),
            final(self).wf(),
    {
        let duplicate: bool = match self.last {
            Some(last) => last == seq,
            None => false,
        };
        let event = if seq == self.expected {
            SeqEvent::InOrder
        } else if duplicate {
            SeqEvent::Duplicate
        } else {
            let distance: u16 = seq.wrapping_sub(self.expected);
            if distance < 32768 {
                SeqEvent::Gap(distance)
            } else {
                SeqEvent::Reorder
            }
        };
        self.last = Some(seq);
        self.expected = seq.wrapping_add(1);
        event
    }

    /// The next expected sequence number.
    pub fn expected(&self) -> (seq: u16)
        ensures
            seq == self.expected_seq(),
    {
        self.expected
    }

    /// The sequence number seen last, if any.
    pub fn last(&self) -> (seq: Option<u16>)
        ensures
            seq == self.last_seq(),
    {
        self.last
    }
}

impl Default for SeqTracker {
    fn default() -> (t: Self)
        ensures
            t.wf(),
            t.expected_seq() == 0,
            t.last_seq() == None::<u16>,
    {
        SeqTracker::new()
    }
}

/// The event of `seq` after `last` was received.
pub open spec fn event_after(last: u16, seq: u16) -> SeqEvent {
    classify(successor(last), Some(last), seq)
}

/// Counting up by one stays in order, also where the counter wraps.
pub proof fn successor_is_in_order(last: u16)
    ensures
        event_after(last, successor(last)) == SeqEvent::InOrder,
        successor(0xFFFF) == 0,
{
}

/// The number received last is always a duplicate.
pub proof fn repetition_is_duplicate(last: u16)
    ensures
        event_after(last, last) == SeqEvent::Duplicate,
{
}

/// Losing `n` packets in a row shows as a gap of `n`, wherever the counter
/// stands, for every `n` below 32768.
pub proof fn loss_is_counted_exactly(last: u16, n: u16)
    requires
        0 < n < 32768,
    ensures
        event_after(last, ((last + 1 + n) % 0x1_0000) as u16) == SeqEvent::Gap(n),
{
}

/// A number that lies 1 to 32767 behind the last one is a reordering.
pub proof fn late_packet_is_reorder(last: u16, back: int)
    requires
        0 < back < 32768,
    ensures
        event_after(last, ((last - back) % 0x1_0000) as u16) == SeqEvent::Reorder,
{
}

/// After the first packet, the order in which the duplicate and the gap rule
/// are applied makes no difference: no number is both.
pub proof fn duplicate_is_never_a_gap(last: u16)
    ensures
        distance(successor(last), last) >= 32768,
{
}

/// Every number after the last one is told apart by how far it lies ahead, modulo
/// 2^16: one ahead is in order, further ahead a gap of what is left out, the same
/// a duplicate, and behind a reordering.
pub proof fn every_number_has_its_event(last: u16, ahead: int)
    requires
        -32767 <= ahead <= 32768,
    ensures
        ({
            let event = event_after(last, ((last + ahead) % 0x1_0000) as u16);
            &&& ahead == 1 ==> event == SeqEvent::InOrder
            &&& ahead > 1 ==> event == SeqEvent::Gap((ahead - 1) as u16)
            &&& ahead == 0 ==> event == SeqEvent::Duplicate
            &&& ahead < 0 ==> event == SeqEvent::Reorder
        }),
{
}

/// The first packet is expected to have the number 0: numbers below 32768 tell how
/// many went before, the others are late.
pub proof fn first_number_is_zero(seq: u16)
    ensures
        ({
            let event = classify(0, None, seq);
            &&& seq == 0 ==> event == SeqEvent::InOrder
            &&& 0 < seq < 32768 ==> event == SeqEvent::Gap(seq)
            &&& seq >= 32768 ==> event == SeqEvent::Reorder
        }),
{
}

/// A tracker tells how far each number lies ahead of the last one, and moves on to it,
/// forwards or back.
pub proof fn trackers_follow_the_numbers(
    t: &mut SeqTracker,
    last: u16,
    ahead: int,
    seq: u16,
    event: SeqEvent,
)
    requires
        old(t).wf(),
        old(t).last_seq() == Some(last),
        -32767 <= ahead <= 32768,
        seq == (last + ahead) % 0x1_0000,
        call_ensures(SeqTracker::update, (t, seq), event),
    ensures
        ahead == 1 <==> event == SeqEvent::InOrder,
        ahead > 1 ==> event == SeqEvent::Gap((ahead - 1) as u16),
        ahead == 0 <==> event == SeqEvent::Duplicate,
        ahead < 0 <==> event == SeqEvent::Reorder,
        final(t).wf(),
        final(t).last_seq() == Some(seq),
        final(t).expected_seq() == (seq + 1) % 0x1_0000,
{
    every_number_has_its_event(last, ahead);
}

/// A tracker expects the number 0 first, and tells what it expects and saw.
pub proof fn trackers_start_at_zero(
    t: SeqTracker,
    first: u16,
    none: Option<u16>,
    u: &mut SeqTracker,
    seq: u16,
    event: SeqEvent,
    next: u16,
    last: Option<u16>,
)
    requires
        call_ensures(SeqTracker::new, (), t),
        call_ensures(SeqTracker::expected, (&t,), first),
        call_ensures(SeqTracker::last, (&t,), none),
        call_ensures(SeqTracker::update, (u, seq), event),
        call_ensures(SeqTracker::expected, (&*final(u),), next),
        call_ensures(SeqTracker::last, (&*final(u),), last),
    ensures
        first == 0 && none is None,
        last == Some(seq),
        next == (seq + 1) % 0x1_0000,
        *old(u) == t && seq == 0 ==> event == SeqEvent::InOrder,
        *old(u) == t && 0 < seq < 32768 ==> event == SeqEvent::Gap(seq),
        *old(u) == t && seq >= 32768 ==> event == SeqEvent::Reorder,
{
}

} // verus!
