//! Datagram reception: one datagram is one packet.

use vstd::prelude::*;

use crate::protocol;
use crate::protocol::decode;
use crate::protocol::Packet;
use crate::sequence;
use crate::sequence::SeqTracker;
use crate::stats::PacketStats;

verus! {

/// What taking in a datagram gives and does to the statistics and the tracking.
pub open spec fn was_received(
    counters: PacketStats,
    tracker: SeqTracker,
    datagram: Seq<u8>,
    r: Option<Packet>,
    after_counters: PacketStats,
    after_tracker: SeqTracker,
) -> bool {
    match protocol::parsed(datagram) {
        Ok(p) => {
            &&& r matches Some(pkt) && pkt@ == p
            &&& after_counters == counters.with_packet(
                sequence::classify(tracker.expected_seq(), tracker.last_seq(), p.seq),
            )
            &&& after_tracker.wf()
            &&& after_tracker.last_seq() == Some(p.seq)
        },
        Err(_) => {
            &&& r is None
            &&& after_counters == (PacketStats {
                malformed: (counters.malformed + 1) as u64,
                ..counters
            })
            &&& after_tracker == tracker
        },
    }
}

/// The time from `now` to `deadline`, while there is any.
pub open spec fn wait_left(deadline: u64, now: u64) -> Option<u64> {
    if now >= deadline {
        None
    } else {
        Some((deadline - now) as u64)
    }
}

/// Decodes incoming datagrams and keeps the receive statistics.
///
/// Datagrams that do not decode are counted and dropped; reception goes on.
pub struct UdpReceiver {
    stats: PacketStats,
    seq_tracker: SeqTracker,
}

impl UdpReceiver {
    /// The statistics so far.
    pub closed spec fn counters(self) -> PacketStats {
        self.stats
    }

    /// The state of the sequence tracking.
    pub closed spec fn tracker(self) -> SeqTracker {
        self.seq_tracker
    }

    /// A receiver that has seen nothing.
    pub fn new() -> (r: Self)
        ensures
            r.counters() == PacketStats::zero(),
            r.tracker().wf(),
            r.tracker().expected_seq() == 0,
            r.tracker().last_seq() == None::<u16>,
    {
        UdpReceiver { stats: PacketStats::default(), seq_tracker: SeqTracker::new() }
    }

    /// Takes in one datagram: the packet it holds, or nothing if it is
    /// malformed.
    pub fn on_datagram(&mut self, datagram: &[u8]) -> (r: Option<Packet>)
        requires
            old(self).counters().has_room(),
        ensures
            was_received(
                old(self).counters(),
                old(self).tracker(),
                datagram@,
                r,
                final(self).counters(),
                final(self).tracker(),
            ),
    {
        match decode(datagram) {
            Ok(pkt) => {
                let event = self.seq_tracker.update(pkt.seq);
                self.stats.count_packet(event);
                Some(pkt)
            },
            Err(_) => {
                self.stats.malformed = self.stats.malformed + 1;
                None
            },
        }
    }

    /// How long to go on waiting for a packet that is due by `deadline`; not at
    /// all from then on. Malformed datagrams do not extend the wait.
    pub fn time_left(deadline: u64, now: u64) -> (left: Option<u64>)
        ensures
            left == wait_left(deadline, now),
    {
        if now >= deadline {
            None
        } else {
            Some(deadline - now)
        }
    }

    /// The statistics so far.
    pub fn stats(&self) -> (s: &PacketStats)
        ensures
            *s == self.counters(),
    {
        &self.stats
    }

    /// The statistics, for a caller that counts content errors.
    pub fn stats_mut(&mut self) -> (s: &mut PacketStats)
        ensures
            *s == old(self).counters(),
            final(self).counters() == *final(s),
            final(self).tracker() == old(self).tracker(),
    {
        &mut self.stats
    }
}

/// A packet sent as a datagram is the packet that comes in, and it is counted:
/// as received, and its number as the tracking has it.
pub proof fn datagrams_give_back_packets(
    counters: PacketStats,
    tracker: SeqTracker,
    p: protocol::PacketView,
    last: u16,
    ahead: int,
    r: Option<Packet>,
    after_counters: PacketStats,
    after_tracker: SeqTracker,
)
    requires
        counters.has_room(),
        p.payload.len() <= 0xFFFF,
        tracker.wf(),
        tracker.last_seq() == Some(last),
        -32767 <= ahead <= 32768,
        p.seq == (last + ahead) % 0x1_0000,
        was_received(
            counters,
            tracker,
            protocol::wire(p),
            r,
            after_counters,
            after_tracker,
        ),
    ensures
        r matches Some(pkt) && pkt@ == p,
        after_counters.received - counters.received == 1,
        after_counters.malformed == counters.malformed,
        after_counters.content_errors == counters.content_errors,
        after_counters.lost - counters.lost == (if ahead > 1 {
            ahead - 1
        } else {
            0
        }),
        after_counters.duplicate - counters.duplicate == (if ahead == 0 {
            1int
        } else {
            0
        }),
        after_counters.out_of_order - counters.out_of_order == (if ahead < 0 {
            1int
        } else {
            0
        }),
{
    protocol::decode_undoes_encode(p);
}

/// A datagram that holds no packet is counted as malformed and as nothing else, and
/// has no part in the tracking.
pub proof fn malformed_datagrams_only_count(
    counters: PacketStats,
    tracker: SeqTracker,
    datagram: Seq<u8>,
    r: Option<Packet>,
    after_counters: PacketStats,
    after_tracker: SeqTracker,
)
    requires
        counters.has_room(),
        was_received(counters, tracker, datagram, r, after_counters, after_tracker),
    ensures
        r is None <==> protocol::parsed(datagram) is Err,
        r is None ==> after_tracker == tracker,
        after_counters.malformed - counters.malformed == (if r is None {
            1int
        } else {
            0
        }),
        after_counters.received - counters.received == (if r is None {
            0int
        } else {
            1
        }),
        r is None ==> after_counters.lost == counters.lost && after_counters.duplicate
            == counters.duplicate && after_counters.out_of_order == counters.out_of_order,
{
}

/// Waiting ends at the deadline, however often it is interrupted.
pub proof fn waits_end_at_the_deadline(deadline: u64, now: u64)
    ensures
        wait_left(deadline, now) is Some <==> now < deadline,
        wait_left(deadline, now) matches Some(left) ==> now + left == deadline,
{
}

/// The wire form of a packet is received as that packet and counted, and the tracking
/// moves on to it; a datagram of any other kind gives nothing and counts as malformed.
pub proof fn receivers_take_packets(
    u: &mut UdpReceiver,
    datagram: &[u8],
    p: protocol::PacketView,
    r: Option<Packet>,
)
    requires
        old(u).counters().has_room(),
        p.payload.len() <= 0xFFFF,
        call_ensures(UdpReceiver::on_datagram, (u, datagram), r),
    ensures
        datagram@ == protocol::wire(p) ==> {
            &&& r matches Some(pkt) && pkt@ == p
            &&& final(u).counters().received - old(u).counters().received == 1
            &&& final(u).counters().malformed == old(u).counters().malformed
            &&& final(u).tracker().last_seq() == Some(p.seq)
        },
        r is None ==> {
            &&& final(u).counters().received == old(u).counters().received
            &&& final(u).counters().malformed - old(u).counters().malformed == 1
            &&& final(u).counters().lost == old(u).counters().lost
            &&& final(u).counters().duplicate == old(u).counters().duplicate
            &&& final(u).counters().out_of_order == old(u).counters().out_of_order
            &&& final(u).tracker() == old(u).tracker()
        },
        final(u).counters().content_errors == old(u).counters().content_errors,
{
    protocol::decode_undoes_encode(p);
}

/// The wait ends at the deadline, and lasts exactly until then.
pub proof fn waiting_ends_at_the_deadline(deadline: u64, now: u64, left: Option<u64>)
    requires
        call_ensures(UdpReceiver::time_left, (deadline, now), left),
    ensures
        left is None <==> now >= deadline,
        left matches Some(t) ==> now + t == deadline && t > 0,
{
}

/// A receiver has seen nothing at first, and its statistics can be looked at and added
/// to.
pub proof fn receivers_start_from_nothing(r: UdpReceiver, s: &PacketStats)
    requires
        call_ensures(UdpReceiver::new, (), r),
        call_ensures(UdpReceiver::stats, (&r,), s),
    ensures
        s.received == 0 && s.lost == 0 && s.duplicate == 0 && s.out_of_order == 0,
        s.malformed == 0 && s.content_errors == 0,
        r.tracker().last_seq() is None && r.tracker().expected_seq() == 0,
{
}

} // verus!
