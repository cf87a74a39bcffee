//! Receive statistics and their one-line rendering.

use vstd::prelude::*;

use crate::sequence::SeqEvent;
use crate::text;
use crate::text::push_decimal;

verus! {

/// Room that a counter needs for one more packet.
pub const COUNTER_LIMIT: u64 = 0xFFFF_FFFF_FFFF_0000;

/// Cumulative receive statistics for one direction of the stream.
#[derive(Debug, Clone, Copy, PartialEq, Eq, Structural)]
pub struct PacketStats {
    /// Valid packets received and processed.
    pub received: u64,
    /// Packets presumed lost (sequence gaps).
    pub lost: u64,
    /// Duplicate sequence numbers.
    pub duplicate: u64,
    /// Out-of-order sequence numbers.
    pub out_of_order: u64,
    /// Datagrams that did not decode as a packet.
    pub malformed: u64,
    /// Packets that decoded but whose payload was not the expected one.
    pub content_errors: u64,
}

impl Default for PacketStats {
    fn default() -> (s: Self)
        ensures
            s == PacketStats::zero(),
    {
        PacketStats {
            received: 0,
            lost: 0,
            duplicate: 0,
            out_of_order: 0,
            malformed: 0,
            content_errors: 0,
        }
    }
}

impl PacketStats {
    /// All counters at zero.
    pub open spec fn zero() -> PacketStats {
        PacketStats {
            received: 0,
            lost: 0,
            duplicate: 0,
            out_of_order: 0,
            malformed: 0,
            content_errors: 0,
        }
    }

    /// No counter is about to overflow.
    pub open spec fn has_room(self) -> bool {
        &&& self.received < COUNTER_LIMIT
        &&& self.lost < COUNTER_LIMIT
        &&& self.duplicate < COUNTER_LIMIT
        &&& self.out_of_order < COUNTER_LIMIT
        &&& self.malformed < COUNTER_LIMIT
        &&& self.content_errors < COUNTER_LIMIT
    }

    /// These statistics with one more packet, whose number was `event`.
    pub open spec fn with_packet(self, event: SeqEvent) -> PacketStats {
        let counted = PacketStats { received: (self.received + 1) as u64, ..self };
        match event {
            SeqEvent::InOrder => counted,
            SeqEvent::Gap(n) => PacketStats { lost: (self.lost + n) as u64, ..counted },
            SeqEvent::Duplicate => PacketStats {
                duplicate: (self.duplicate + 1) as u64,
                ..counted
            },
            SeqEvent::Reorder => PacketStats {
                out_of_order: (self.out_of_order + 1) as u64,
                ..counted
            },
        }
    }

    /// The statistics line.
    pub open spec fn line(self) -> Seq<char> {
        "RECV ok="@ + text::decimal(self.received as nat) + " lost="@ + text::decimal(self.lost as nat)
            + " dup="@ + text::decimal(self.duplicate as nat) + " ooo="@ + text::decimal(
            self.out_of_order as nat,
        ) + " malformed="@ + text::decimal(self.malformed as nat) + " content_errors="@ + text::decimal(
            self.content_errors as nat,
        )
    }

    /// Whether no counter is about to overflow.
    pub fn counters_have_room(&self) -> (r: bool)
        ensures
            r == self.has_room(),
    {
        self.received < COUNTER_LIMIT && self.lost < COUNTER_LIMIT && self.duplicate < COUNTER_LIMIT
            && self.out_of_order < COUNTER_LIMIT && self.malformed < COUNTER_LIMIT
            && self.content_errors < COUNTER_LIMIT
    }

    /// Counts one packet whose sequence number was `event`.
    pub fn count_packet(&mut self, event: SeqEvent)
        requires
            old(self).has_room(),
        ensures
            *final(self) == old(self).with_packet(event),
    {
        self.received = self.received + 1;
        match event {
            SeqEvent::InOrder => {},
            SeqEvent::Gap(n) => {
                self.lost = self.lost + n as u64;
            },
            SeqEvent::Duplicate => {
                self.duplicate = self.duplicate + 1;
            },
            SeqEvent::Reorder => {
                self.out_of_order = self.out_of_order + 1;
            },
        }
    }

    /// The statistics line: `RECV ok=<received> lost=<lost> dup=<duplicate>
    /// ooo=<out_of_order> malformed=<malformed> content_errors=<content_errors>`.
    pub fn render(&self) -> (line: String)
        ensures
            line@ == self.line(),
    {
        let mut line = String::new();
        line.append("RECV ok=");
        push_decimal(&mut line, self.received);
        line.append(" lost=");
        push_decimal(&mut line, self.lost);
        line.append(" dup=");
        push_decimal(&mut line, self.duplicate);
        line.append(" ooo=");
        push_decimal(&mut line, self.out_of_order);
        line.append(" malformed=");
        push_decimal(&mut line, self.malformed);
        line.append(" content_errors=");
        push_decimal(&mut line, self.content_errors);
        assert(line@ =~= self.line());
        line
    }
}

/// Every packet is counted as received, and its number under one name at most.
pub proof fn packets_are_counted_by_name(s: PacketStats, event: SeqEvent)
    requires
        s.has_room(),
    ensures
        ({
            let t = s.with_packet(event);
            &&& t.received - s.received == 1
            &&& t.lost - s.lost == (match event {
                SeqEvent::Gap(n) => n as int,
                _ => 0,
            })
            &&& t.duplicate - s.duplicate == (if event is Duplicate {
                1int
            } else {
                0
            })
            &&& t.out_of_order - s.out_of_order == (if event is Reorder {
                1int
            } else {
                0
            })
            &&& t.malformed == s.malformed && t.content_errors == s.content_errors
        }),
{
}

/// The line tells every counter under its name.
pub proof fn line_tells_every_count(s: PacketStats)
    ensures
        text::tells(s.line(), "RECV ok="@, s.received as nat),
        text::tells(s.line(), " lost="@, s.lost as nat),
        text::tells(s.line(), " dup="@, s.duplicate as nat),
        text::tells(s.line(), " ooo="@, s.out_of_order as nat),
        text::tells(s.line(), " malformed="@, s.malformed as nat),
        text::tells(s.line(), " content_errors="@, s.content_errors as nat),
{
    let line = s.line();
    reveal_strlit("RECV ok=");
    reveal_strlit(" lost=");
    reveal_strlit(" dup=");
    reveal_strlit(" ooo=");
    reveal_strlit(" malformed=");
    reveal_strlit(" content_errors=");
    let before0 = Seq::<char>::empty();
    let before1 = before0 + "RECV ok="@ + text::decimal(s.received as nat);
    let before2 = before1 + " lost="@ + text::decimal(s.lost as nat);
    let before3 = before2 + " dup="@ + text::decimal(s.duplicate as nat);
    let before4 = before3 + " ooo="@ + text::decimal(s.out_of_order as nat);
    let before5 = before4 + " malformed="@ + text::decimal(s.malformed as nat);
    let after5 = Seq::<char>::empty();
    let after4 = " content_errors="@ + text::decimal(s.content_errors as nat) + after5;
    let after3 = " malformed="@ + text::decimal(s.malformed as nat) + after4;
    let after2 = " ooo="@ + text::decimal(s.out_of_order as nat) + after3;
    let after1 = " dup="@ + text::decimal(s.duplicate as nat) + after2;
    let after0 = " lost="@ + text::decimal(s.lost as nat) + after1;
    assert(line =~= before0 + "RECV ok="@ + text::decimal(s.received as nat) + after0);
    text::lemma_tells(line, before0, "RECV ok="@, s.received as nat, after0);
    assert(line =~= before1 + " lost="@ + text::decimal(s.lost as nat) + after1);
    text::lemma_tells(line, before1, " lost="@, s.lost as nat, after1);
    assert(line =~= before2 + " dup="@ + text::decimal(s.duplicate as nat) + after2);
    text::lemma_tells(line, before2, " dup="@, s.duplicate as nat, after2);
    assert(line =~= before3 + " ooo="@ + text::decimal(s.out_of_order as nat) + after3);
    text::lemma_tells(line, before3, " ooo="@, s.out_of_order as nat, after3);
    assert(line =~= before4 + " malformed="@ + text::decimal(s.malformed as nat) + after4);
    text::lemma_tells(line, before4, " malformed="@, s.malformed as nat, after4);
    assert(line =~= before5 + " content_errors="@ + text::decimal(s.content_errors as nat) + after5);
    text::lemma_tells(line, before5, " content_errors="@, s.content_errors as nat, after5);
}

/// Every packet is counted once, and its number under its name.
pub proof fn packets_are_counted(s: &mut PacketStats, event: SeqEvent, line: String)
    requires
        old(s).has_room(),
        call_ensures(PacketStats::count_packet, (s, event), ()),
        call_ensures(PacketStats::render, (&*final(s),), line),
    ensures
        final(s).received - old(s).received == 1,
        event matches SeqEvent::Gap(n) ==> final(s).lost - old(s).lost == n,
        !(event is Gap) ==> final(s).lost == old(s).lost,
        final(s).duplicate - old(s).duplicate == (if event is Duplicate {
            1int
        } else {
            0
        }),
        final(s).out_of_order - old(s).out_of_order == (if event is Reorder {
            1int
        } else {
            0
        }),
        final(s).malformed == old(s).malformed,
        final(s).content_errors == old(s).content_errors,
        text::tells(line@, "RECV ok="@, final(s).received as nat),
        text::tells(line@, " lost="@, final(s).lost as nat),
        text::tells(line@, " dup="@, final(s).duplicate as nat),
        text::tells(line@, " ooo="@, final(s).out_of_order as nat),
        text::tells(line@, " malformed="@, final(s).malformed as nat),
        text::tells(line@, " content_errors="@, final(s).content_errors as nat),
{
    line_tells_every_count(*final(s));
}

/// Statistics start at zero.
pub proof fn statistics_start_at_zero(s: PacketStats)
    requires
        call_ensures(PacketStats::default, (), s),
    ensures
        s.received == 0 && s.lost == 0 && s.duplicate == 0 && s.out_of_order == 0,
        s.malformed == 0 && s.content_errors == 0,
{
}

} // verus!
