//! A queue of items to be released at a deadline.
//!
//! Items leave in the order of their deadlines; items with the same deadline
//! leave in the order they came in.

use vstd::prelude::*;

verus! {

/// How many of the entries at the front are due at `now`.
pub open spec fn due<T>(entries: Seq<(u64, T)>, now: u64) -> nat
    decreases entries.len(),
{
    if entries.len() == 0 || entries[0].0 > now {
        0
    } else {
        1 + due(entries.skip(1), now)
    }
}

/// Deadlines never decrease along the queue.
pub open spec fn ordered<T>(entries: Seq<(u64, T)>) -> bool {
    forall|i: int, j: int| 0 <= i <= j < entries.len() ==> (#[trigger] entries[i]).0 <= (
    #[trigger] entries[j]).0
}

/// The queue after an entry came in: behind all that are due no later.
pub open spec fn scheduled<T>(entries: Seq<(u64, T)>, deadline: u64, item: T) -> Seq<(u64, T)> {
    entries.insert(due(entries, deadline) as int, (deadline, item))
}

/// The items of entries.
pub open spec fn items<T>(entries: Seq<(u64, T)>) -> Seq<T> {
    entries.map_values(|e: (u64, T)| e.1)
}

/// Items in the order of their deadlines. Deadlines are points in time in a
/// unit of the user's choice.
pub struct DelayQueue<T> {
    entries: Vec<(u64, T)>,
}

impl<T> View for DelayQueue<T> {
    type V = Seq<(u64, T)>;

    /// The entries in the order they will leave.
    closed spec fn view(&self) -> Seq<(u64, T)> {
        self.entries@
    }
}

impl<T> Default for DelayQueue<T> {
    fn default() -> (q: Self)
        ensures
            q@ == Seq::<(u64, T)>::empty(),
    {
        DelayQueue { entries: Vec::new() }
    }
}

impl<T> DelayQueue<T> {
    /// The invariant: the entries are in the order of their deadlines.
    pub open spec fn wf(self) -> bool {
        ordered(self@)
    }

    /// An empty queue.
    pub fn new() -> (q: Self)
        ensures
            q.wf(),
            q@ == Seq::<(u64, T)>::empty(),
    {
        Self::default()
    }

    /// How many entries at the front are due at `now`.
    fn count_due(&self, now: u64) -> (n: usize)
        requires
            self.wf(),
        ensures
            n == due(self@, now),
            n <= self@.len(),
    {
        let mut n: usize = 0;
        assert(self@.skip(0) =~= self@);
        while n < self.entries.len() && self.entries[n].0 <= now
            invariant
                n <= self.entries@.len(),
                due(self.entries@, now) == n + due(self.entries@.skip(n as int), now),
            decreases self.entries@.len() - n,
        {
            assert(self.entries@.skip(n as int).skip(1) =~= self.entries@.skip(n + 1));
            n = n + 1;
        }
        n
    }

    /// Schedules an item for release at `deadline`.
    pub fn push(&mut self, deadline: u64, item: T)
        requires
            old(self).wf(),
        ensures
            final(self).wf(),
            final(self)@ == scheduled(old(self)@, deadline, item),
    {
        let n: usize = self.count_due(deadline);
        self.entries.insert(n, (deadline, item));
        proof {
            scheduling_keeps_order(old(self)@, deadline, item);
        }
    }

    /// The earliest deadline, if anything is scheduled.
    pub fn deadline(&self) -> (d: Option<u64>)
        requires
            self.wf(),
        ensures
            d == (if self@.len() == 0 {
                None
            } else {
                Some(self@[0].0)
            }),
            d matches Some(first) ==> forall|i: int|
                0 <= i < self@.len() ==> first <= (#[trigger] self@[i]).0,
    {
        if self.entries.len() == 0 {
            None
        } else {
            Some(self.entries[0].0)
        }
    }

    /// Takes out every item whose deadline has come, in the order of their
    /// deadlines, and for equal ones in the order they came in.
    pub fn pop_expired(&mut self, now: u64) -> (expired: Vec<T>)
        requires
            old(self).wf(),
        ensures
            final(self).wf(),
            expired@ == items(old(self)@.take(due(old(self)@, now) as int)),
            final(self)@ == old(self)@.skip(due(old(self)@, now) as int),
    {
        let n: usize = self.count_due(now);
        let mut expired: Vec<T> = Vec::new();
        let mut i: usize = 0;
        assert(self@.skip(0) =~= self@);
        while i < n
            invariant
                i <= n <= old(self)@.len(),
                self@ == old(self)@.skip(i as int),
                expired@ == items(old(self)@.take(i as int)),
            decreases n - i,
        {
            let (_, item) = self.entries.remove(0);
            expired.push(item);
            i = i + 1;
            assert(self@ =~= old(self)@.skip(i as int));
            assert(expired@ =~= items(old(self)@.take(i as int)));
        }
        expired
    }

    /// The number of scheduled items.
    pub fn len(&self) -> (n: usize)
        ensures
            n == self@.len(),
    {
        self.entries.len()
    }

    /// Whether nothing is scheduled.
    pub fn is_empty(&self) -> (r: bool)
        ensures
            r == (self@.len() == 0),
    {
        self.entries.len() == 0
    }
}

/// In an ordered queue the due entries are exactly those with a deadline that
/// has come.
pub proof fn exactly_the_due_leave<T>(entries: Seq<(u64, T)>, now: u64)
    requires
        ordered(entries),
    ensures
        due(entries, now) <= entries.len(),
        forall|i: int| 0 <= i < due(entries, now) ==> (#[trigger] entries[i]).0 <= now,
        forall|i: int| due(entries, now) <= i < entries.len() ==> (#[trigger] entries[i]).0 > now,
    decreases entries.len(),
{
    if entries.len() > 0 && entries[0].0 <= now {
        let rest = entries.skip(1);
        assert(ordered(rest)) by {
            assert forall|i: int, j: int| 0 <= i <= j < rest.len() implies (#[trigger] rest[i]).0
                <= (#[trigger] rest[j]).0 by {
                assert(rest[i] == entries[i + 1]);
                assert(rest[j] == entries[j + 1]);
            }
        }
        exactly_the_due_leave(rest, now);
        assert forall|i: int| 0 <= i < due(entries, now) implies (#[trigger] entries[i]).0 <= now by {
            if i > 0 {
                assert(entries[i] == rest[i - 1]);
            }
        }
        assert forall|i: int| due(entries, now) <= i < entries.len() implies (
        #[trigger] entries[i]).0 > now by {
            assert(entries[i] == rest[i - 1]);
        }
    }
}

/// An item that comes in finds its place in the order of the deadlines.
pub proof fn scheduling_keeps_order<T>(entries: Seq<(u64, T)>, deadline: u64, item: T)
    requires
        ordered(entries),
    ensures
        ordered(scheduled(entries, deadline, item)),
{
    exactly_the_due_leave(entries, deadline);
    let n = due(entries, deadline) as int;
    let after = scheduled(entries, deadline, item);
    assert forall|i: int, j: int| 0 <= i <= j < after.len() implies (#[trigger] after[i]).0 <= (
    #[trigger] after[j]).0 by {
        let a = if i < n {
            entries[i].0
        } else if i == n {
            deadline
        } else {
            entries[i - 1].0
        };
        let b = if j < n {
            entries[j].0
        } else if j == n {
            deadline
        } else {
            entries[j - 1].0
        };
        assert(after[i].0 == a);
        assert(after[j].0 == b);
    }
}

/// Polling at an earlier time first changes nothing: what leaves by `later`
/// leaves in the same order, in one poll or in two.
pub proof fn polling_in_between_changes_nothing<T>(
    entries: Seq<(u64, T)>,
    earlier: u64,
    later: u64,
)
    requires
        ordered(entries),
        earlier <= later,
    ensures
        ({
            let n = due(entries, earlier) as int;
            let rest = entries.skip(n);
            &&& due(entries, later) == n + due(rest, later)
            &&& items(entries.take(due(entries, later) as int)) == items(entries.take(n)) + items(
                rest.take(due(rest, later) as int),
            )
        }),
    decreases entries.len(),
{
    exactly_the_due_leave(entries, earlier);
    exactly_the_due_leave(entries, later);
    let n = due(entries, earlier) as int;
    let rest = entries.skip(n);
    assert(ordered(rest)) by {
        assert forall|i: int, j: int| 0 <= i <= j < rest.len() implies (#[trigger] rest[i]).0 <= (
        #[trigger] rest[j]).0 by {
            assert(rest[i] == entries[i + n]);
            assert(rest[j] == entries[j + n]);
        }
    }
    exactly_the_due_leave(rest, later);
    let m = due(rest, later) as int;
    let k = due(entries, later) as int;
    if k < n + m {
        assert(rest[k - n] == entries[k]) by {
            if k < n {
                assert(entries[k].0 <= later);
            }
        }
    } else if k > n + m {
        assert(rest[m] == entries[n + m]);
    }
    assert(items(entries.take(k)) =~= items(entries.take(n)) + items(rest.take(m)));
}

/// The queue after pushes in the given order, from empty.
pub open spec fn after_pushes<T>(pushes: Seq<(u64, T)>) -> Seq<(u64, T)>
    decreases pushes.len(),
{
    if pushes.len() == 0 {
        Seq::empty()
    } else {
        scheduled(after_pushes(pushes.drop_last()), pushes.last().0, pushes.last().1)
    }
}

/// Pushes with the items replaced by their position.
pub open spec fn numbered(deadlines: Seq<u64>) -> Seq<(u64, int)> {
    Seq::new(deadlines.len(), |i: int| (deadlines[i], i))
}

/// Every push leaves once and at its own deadline. Items leave in the order of
/// their deadlines, and those with equal deadlines in the order they were pushed.
pub proof fn release_order(deadlines: Seq<u64>)
    ensures
        forall|i: int, j: int|
            #![trigger after_pushes(numbered(deadlines))[i], after_pushes(numbered(deadlines))[j]]
            0 <= i < j < after_pushes(numbered(deadlines)).len() ==> {
                let a = after_pushes(numbered(deadlines))[i];
                let b = after_pushes(numbered(deadlines))[j];
                a.0 < b.0 || (a.0 == b.0 && a.1 < b.1)
            },
        after_pushes(numbered(deadlines)).len() == deadlines.len(),
        forall|i: int|
            0 <= i < deadlines.len() ==> {
                let e = #[trigger] after_pushes(numbered(deadlines))[i];
                0 <= e.1 < deadlines.len() && e.0 == deadlines[e.1]
            },
        forall|p: int|
            0 <= p < deadlines.len() ==> #[trigger] after_pushes(numbered(deadlines)).contains(
                (deadlines[p], p),
            ),
        after_pushes(numbered(deadlines)).no_duplicates(),
    decreases deadlines.len(),
{
    if deadlines.len() > 0 {
        let fewer = deadlines.drop_last();
        release_order(fewer);
        assert(numbered(deadlines).drop_last() =~= numbered(fewer));
        let before = after_pushes(numbered(fewer));
        let after = after_pushes(numbered(deadlines));
        let d = deadlines.last();
        assert(ordered(before)) by {
            assert forall|i: int, j: int| 0 <= i <= j < before.len() implies (
            #[trigger] before[i]).0 <= (#[trigger] before[j]).0 by {
                if i < j {
                    assert(before[i].0 <= before[j].0);
                }
            }
        }
        exactly_the_due_leave(before, d);
        let n = due(before, d) as int;
        let last = (deadlines.len() - 1) as int;
        assert(after == before.insert(n, (d, last)));
        assert forall|i: int, j: int| 0 <= i < j < after.len() implies {
            let a = #[trigger] after[i];
            let b = #[trigger] after[j];
            a.0 < b.0 || (a.0 == b.0 && a.1 < b.1)
        } by {
            if i < n && j < n {
                assert(after[i] == before[i] && after[j] == before[j]);
            } else if i < n && j == n {
                assert(after[i] == before[i]);
            } else if i < n {
                assert(after[i] == before[i] && after[j] == before[j - 1]);
            } else if i == n {
                assert(after[j] == before[j - 1]);
            } else {
                assert(after[i] == before[i - 1] && after[j] == before[j - 1]);
            }
        }
        assert forall|i: int| 0 <= i < deadlines.len() implies ({
            let e = #[trigger] after[i];
            0 <= e.1 < deadlines.len() && e.0 == deadlines[e.1]
        }) by {
            if i < n {
                assert(after[i] == before[i]);
            } else if i > n {
                assert(after[i] == before[i - 1]);
            }
        }
        assert forall|p: int| 0 <= p < deadlines.len() implies #[trigger] after.contains(
            (deadlines[p], p),
        ) by {
            if p == last {
                assert(after[n] == (d, last));
            } else {
                assert(before.contains((fewer[p], p)));
                let i = choose|i: int| 0 <= i < before.len() && before[i] == (fewer[p], p);
                if i < n {
                    assert(after[i] == before[i]);
                } else {
                    assert(after[i + 1] == before[i]);
                }
            }
        }
    }
}

/// A scheduled entry is there besides all that were, and stands behind every one
/// that is due no later and before every one that is due later.
pub proof fn scheduled_entry_finds_its_place<T>(entries: Seq<(u64, T)>, deadline: u64, item: T)
    requires
        ordered(entries),
    ensures
        ({
            let n = due(entries, deadline) as int;
            let after = scheduled(entries, deadline, item);
            &&& after.len() == entries.len() + 1
            &&& after[n] == (deadline, item)
            &&& after.take(n) == entries.take(n)
            &&& after.skip(n + 1) == entries.skip(n)
            &&& forall|i: int| 0 <= i < n ==> (#[trigger] after[i]).0 <= deadline
            &&& forall|i: int| n < i < after.len() ==> (#[trigger] after[i]).0 > deadline
        }),
{
    exactly_the_due_leave(entries, deadline);
    let n = due(entries, deadline) as int;
    let after = scheduled(entries, deadline, item);
    assert(after.take(n) =~= entries.take(n));
    assert(after.skip(n + 1) =~= entries.skip(n));
    assert forall|i: int| n < i < after.len() implies (#[trigger] after[i]).0 > deadline by {
        assert(after[i] == entries[i - 1]);
    }
}

/// What is pushed comes out once its deadline has come and not before, and the
/// earliest deadline is told.
pub proof fn items_leave_at_their_deadlines<T>(
    q: &mut DelayQueue<T>,
    deadline: u64,
    item: T,
    first: Option<u64>,
    r: &mut DelayQueue<T>,
    now: u64,
    out: Vec<T>,
)
    requires
        old(q).wf(),
        old(q)@.len() == 0,
        call_ensures(DelayQueue::<T>::push, (q, deadline, item), ()),
        call_ensures(DelayQueue::<T>::deadline, (&*final(q),), first),
        *old(r) == *final(q),
        call_ensures(DelayQueue::<T>::pop_expired, (r, now), out),
    ensures
        first == Some(deadline),
        now >= deadline ==> out@ == seq![item] && final(r)@.len() == 0,
        now < deadline ==> out@.len() == 0 && final(r)@ == seq![(deadline, item)],
{
    let e = Seq::<(u64, T)>::empty();
    assert(old(q)@ =~= e);
    assert(final(q)@ =~= seq![(deadline, item)]);
    assert(seq![(deadline, item)].skip(1) =~= e);
    assert(due(e, now) == 0);
    assert(out@ =~= (if now >= deadline {
        seq![item]
    } else {
        Seq::<T>::empty()
    }));
    assert(final(q)@.skip(0) =~= final(q)@);
}

/// A queue counts what is scheduled, and is empty at first.
pub proof fn queues_count_their_items<T>(q: &DelayQueue<T>, n: usize, empty: bool, fresh: DelayQueue<T>)
    requires
        call_ensures(DelayQueue::<T>::len, (q,), n),
        call_ensures(DelayQueue::<T>::is_empty, (q,), empty),
        call_ensures(DelayQueue::<T>::new, (), fresh),
    ensures
        n == q@.len(),
        empty <==> n == 0,
        fresh@.len() == 0,
{
}

/// Pushing adds one item, to be released at its deadline and behind those that are due
/// with it or before; the others keep their places.
pub proof fn pushed_items_find_their_place<T>(q: &mut DelayQueue<T>, deadline: u64, item: T, i: int)
    requires
        old(q).wf(),
        call_ensures(DelayQueue::<T>::push, (q, deadline, item), ()),
        0 <= i < old(q)@.len(),
    ensures
        final(q).wf(),
        final(q)@.len() == old(q)@.len() + 1,
        ({
            let n = due(old(q)@, deadline) as int;
            &&& final(q)@[n] == (deadline, item)
            &&& i < n ==> final(q)@[i] == old(q)@[i] && old(q)@[i].0 <= deadline
            &&& i >= n ==> final(q)@[i + 1] == old(q)@[i] && old(q)@[i].0 > deadline
        }),
{
    exactly_the_due_leave(old(q)@, deadline);
}

} // verus!
