//! The jitter buffer: a ring of samples between the network and the playback
//! callback.
//!
//! Blocks are stored whole or dropped whole, never torn: a partly stored frame
//! would be audible as a glitch.

use vstd::arithmetic::div_mod;
use vstd::arithmetic::power2;
use vstd::prelude::*;

verus! {

/// Nominal prebuffer in milliseconds.
pub const TARGET_PREBUFFER_MS: u32 = 10;

/// Smallest prebuffer in milliseconds.
pub const MIN_PREBUFFER_MS: u32 = 5;

/// Largest prebuffer in milliseconds.
pub const MAX_PREBUFFER_MS: u32 = 20;

/// Smallest capacity of a buffer, in samples.
pub const MIN_CAPACITY: usize = 1024;

/// Whether `n` is a power of two.
pub open spec fn is_power_of_two(n: int) -> bool {
    exists|k: nat| n == #[trigger] power2::pow2(k)
}

/// The samples a capacity has to hold at least for a request of `x`.
pub open spec fn requested(x: usize) -> int {
    if x <= MIN_CAPACITY {
        MIN_CAPACITY as int
    } else {
        x as int
    }
}

/// Whether a block fits beside the samples `contents` in a buffer of `cap`.
pub open spec fn fits<T>(cap: int, contents: Seq<T>, block: Seq<T>) -> bool {
    block.len() <= cap - contents.len()
}

/// What is buffered after a block was offered: the block whole, or not at all.
pub open spec fn after_push<T>(cap: int, contents: Seq<T>, block: Seq<T>) -> Seq<T> {
    if fits(cap, contents, block) {
        contents + block
    } else {
        contents
    }
}

/// How many of the samples `contents` a read of up to `wanted` takes.
pub open spec fn popped<T>(contents: Seq<T>, wanted: nat) -> nat {
    if wanted <= contents.len() {
        wanted
    } else {
        contents.len()
    }
}

/// The ring cell that lies `i` cells after cell `start`, in a ring of `cap`.
spec fn cell(start: int, i: int, cap: int) -> int {
    if start + i < cap {
        start + i
    } else {
        start + i - cap
    }
}

/// Smallest power of two not smaller than `x`, and at least 1024.
fn next_pow2(x: usize) -> (v: usize)
    requires
        x <= usize::MAX / 2 + 1,
    ensures
        is_power_of_two(v as int),
        requested(x) <= v < 2 * requested(x),
        (usize::MAX + 1) % (v as int) == 0,
{
    let mut v: usize = MIN_CAPACITY;
    let ghost mut k: nat = 10;
    proof {
        power2::lemma2_to64();
    }
    while v < x
        invariant
            MIN_CAPACITY <= v,
            v == power2::pow2(k),
            v == MIN_CAPACITY || v < 2 * x,
            x <= usize::MAX / 2 + 1,
        decreases 2 * x - v,
    {
        proof {
            power2::lemma_pow2_unfold(k + 1);
            k = k + 1;
        }
        v = v * 2;
    }
    proof {
        lemma_power_divides_range(v, k);
    }
    v
}

proof fn lemma_power_divides_range(v: usize, k: nat)
    requires
        v == power2::pow2(k),
    ensures
        (usize::MAX + 1) % (v as int) == 0,
{
    let bits: nat = usize::BITS as nat;
    power2::lemma_pow2_pos(k);
    assert(usize::MAX + 1 == power2::pow2(bits)) by {
        power2::lemma2_to64();
        power2::lemma2_to64_rest();
    }
    if k > bits {
        power2::lemma_pow2_strictly_increases(bits, k);
    }
    let rest: nat = (bits - k) as nat;
    power2::lemma_pow2_adds(k, rest);
    let whole: int = usize::MAX + 1;
    let factor: int = power2::pow2(rest) as int;
    assert(whole == v as int * factor);
    div_mod::lemma_mod_multiples_basic(factor, v as int);
    assert(v as int * factor == factor * v as int) by (nonlinear_arith);
}

/// A ring buffer of samples with one writer and one reader.
///
/// `head` and `tail` count samples written and read; they wrap around the range
/// of `usize` and are reduced to a cell index only on access.
pub struct JitterBuffer<T> {
    buf: Vec<T>,
    head: usize,
    tail: usize,
    overruns: u64,
    underruns: u64,
}

impl<T: Copy> View for JitterBuffer<T> {
    type V = Seq<T>;

    /// The buffered samples, oldest first.
    closed spec fn view(&self) -> Seq<T> {
        Seq::new(
            self.len() as nat,
            |i: int| self.buf@[cell(self.tail as int % self.cap(), i, self.cap())],
        )
    }
}

impl<T: Copy> JitterBuffer<T> {
    spec fn cap(self) -> int {
        self.buf@.len() as int
    }

    spec fn len(self) -> int {
        if self.head >= self.tail {
            self.head - self.tail
        } else {
            self.head - self.tail + usize::MAX + 1
        }
    }

    /// The capacity in samples.
    pub closed spec fn size(self) -> int {
        self.cap()
    }

    /// Whole blocks dropped for lack of space, modulo 2^64.
    pub closed spec fn overrun_count(self) -> u64 {
        self.overruns
    }

    /// Reads that ran dry, modulo 2^64.
    pub closed spec fn underrun_count(self) -> u64 {
        self.underruns
    }

    /// The invariant: the occupancy fits the capacity, which divides the range
    /// of the counters.
    pub closed spec fn wf(self) -> bool {
        &&& MIN_CAPACITY <= self.cap() <= usize::MAX
        &&& (usize::MAX + 1) % self.cap() == 0
        &&& self.len() <= self.cap()
    }

    /// A consequence of the invariant: no more is buffered than fits.
    pub broadcast proof fn contents_fit(self)
        requires
            #[trigger] self.wf(),
        ensures
            self@.len() <= self.size() <= usize::MAX,
            MIN_CAPACITY <= self.size(),
    {
    }

    /// The actual capacity in samples, a power of two.
    pub fn capacity(&self) -> (c: usize)
        requires
            self.wf(),
        ensures
            c == self.size(),
    {
        self.buf.len()
    }

    /// Samples buffered and ready to pop.
    pub fn available(&self) -> (n: usize)
        requires
            self.wf(),
        ensures
            n == self@.len(),
    {
        self.head.wrapping_sub(self.tail)
    }

    /// Samples that still fit.
    pub fn free(&self) -> (n: usize)
        requires
            self.wf(),
        ensures
            n == self.size() - self@.len(),
    {
        self.capacity() - self.available()
    }

    /// The occupied part of the capacity, as a fraction: samples buffered and
    /// samples that fit in all.
    pub fn fill_ratio(&self) -> (r: (usize, usize))
        requires
            self.wf(),
        ensures
            r.0 == self@.len(),
            r.1 == self.size(),
            r.0 <= r.1,
            0 < r.1,
    {
        (self.available(), self.capacity())
    }

    /// Whole blocks dropped by `push` for lack of space.
    pub fn overruns(&self) -> (n: u64)
        ensures
            n == self.overrun_count(),
    {
        self.overruns
    }

    /// Times the reader had to fill in silence.
    pub fn underruns(&self) -> (n: u64)
        ensures
            n == self.underrun_count(),
    {
        self.underruns
    }

    /// Counts one underrun: the reader ran dry and emitted silence.
    pub fn note_underrun(&mut self)
        requires
            old(self).wf(),
        ensures
            final(self).wf(),
            final(self)@ == old(self)@,
            final(self).size() == old(self).size(),
            final(self).overrun_count() == old(self).overrun_count(),
            final(self).underrun_count() == old(self).underrun_count().wrapping_add(1),
    {
        self.underruns = self.underruns.wrapping_add(1);
    }

    /// Empties the buffer and zeroes the counters.
    pub fn reset(&mut self)
        requires
            old(self).wf(),
        ensures
            final(self).wf(),
            final(self)@ == Seq::<T>::empty(),
            final(self).size() == old(self).size(),
            final(self).overrun_count() == 0,
            final(self).underrun_count() == 0,
    {
        self.head = 0;
        self.tail = 0;
        self.overruns = 0;
        self.underruns = 0;
    }

    proof fn lemma_cell_of_index(self, i: int)
        requires
            self.wf(),
            0 <= i <= self.cap(),
        ensures
            (self.tail + i) % self.cap() == cell(self.tail as int % self.cap(), i, self.cap())
                % self.cap(),
            (self.tail + i - (usize::MAX + 1)) % self.cap() == (self.tail + i) % self.cap(),
            0 <= self.tail as int % self.cap() < self.cap(),
    {
        let range: int = usize::MAX + 1;
        let cap = self.cap();
        div_mod::lemma_sub_mod_noop(self.tail + i, range, cap);
        div_mod::lemma_mod_twice(self.tail + i, cap);
        div_mod::lemma_add_mod_noop_right(i, self.tail as int, cap);
        let start = self.tail as int % cap;
        assert((self.tail + i) % cap == (start + i) % cap);
        if start + i >= cap {
            div_mod::lemma_mod_sub_multiples_vanish(start + i, cap);
        }
    }

    /// Stores a whole block, or nothing: a block that does not fit is dropped
    /// and counted as an overrun. Returns the number of samples stored.
    pub fn push(&mut self, samples: &[T]) -> (n: usize)
        requires
            old(self).wf(),
        ensures
            final(self).wf(),
            final(self).size() == old(self).size(),
            final(self).underrun_count() == old(self).underrun_count(),
            final(self)@ == after_push(old(self).size(), old(self)@, samples@),
            fits(old(self).size(), old(self)@, samples@) ==> {
                &&& n == samples@.len()
                &&& final(self).overrun_count() == old(self).overrun_count()
            },
            !fits(old(self).size(), old(self)@, samples@) ==> {
                &&& n == 0
                &&& final(self).overrun_count() == old(self).overrun_count().wrapping_add(1)
            },
    {
        let n: usize = samples.len();
        if n == 0 {
            assert(self@ + samples@ =~= self@);
            return 0;
        }
        let cap: usize = self.buf.len();
        let used: usize = self.head.wrapping_sub(self.tail);
        if n > cap - used {
            self.overruns = self.overruns.wrapping_add(1);
            return 0;
        }
        let ghost before = *self;
        let ghost start = self.tail as int % self.cap();
        let mut pos: usize = self.head % cap;
        proof {
            self.lemma_cell_of_index(used as int);
            if used < cap {
                div_mod::lemma_small_mod(
                    cell(start, used as int, cap as int) as nat,
                    cap as nat,
                );
            }
        }
        let mut i: usize = 0;
        while i < n
            invariant
                i <= n,
                n == samples@.len(),
                n <= cap - used,
                used == before.len(),
                cap == self.buf@.len(),
                cap == before.buf@.len(),
                0 <= start < cap,
                i < n ==> pos == cell(start, used + i, cap as int),
                *self == (JitterBuffer { buf: self.buf, ..before }),
                forall|j: int|
                    0 <= j < used ==> self.buf@[#[trigger] cell(start, j, cap as int)]
                        == before.buf@[cell(start, j, cap as int)],
                forall|j: int|
                    0 <= j < i ==> self.buf@[cell(start, used + j, cap as int)] == #[trigger] samples@[j],
            decreases n - i,
        {
            self.buf[pos] = samples[i];
            pos = if pos + 1 == cap {
                0
            } else {
                pos + 1
            };
            i = i + 1;
        }
        self.head = self.head.wrapping_add(n);
        assert(self@ =~= before@ + samples@);
        n
    }

    /// Takes out the oldest samples, as many as there are and `out` holds.
    /// Returns their number.
    pub fn pop(&mut self, out: &mut [T]) -> (n: usize)
        requires
            old(self).wf(),
        ensures
            final(self).wf(),
            final(self).size() == old(self).size(),
            final(self).overrun_count() == old(self).overrun_count(),
            final(self).underrun_count() == old(self).underrun_count(),
            n == popped(old(self)@, old(out)@.len()),
            final(out)@ == old(self)@.take(n as int) + old(out)@.skip(n as int),
            final(self)@ == old(self)@.skip(n as int),
    {
        let n: usize = out.len();
        let used: usize = self.head.wrapping_sub(self.tail);
        let take: usize = if n <= used {
            n
        } else {
            used
        };
        let cap: usize = self.buf.len();
        let ghost before = *self;
        let ghost given = out@;
        let ghost start = self.tail as int % self.cap();
        let mut pos: usize = self.tail % cap;
        let mut i: usize = 0;
        while i < take
            invariant
                i <= take <= out@.len(),
                take <= used <= cap,
                used == before.len(),
                *self == before,
                cap == self.buf@.len(),
                0 <= start < cap,
                start == self.tail as int % self.cap(),
                out@.len() == given.len(),
                i < take ==> pos == cell(start, i as int, cap as int),
                forall|j: int| 0 <= j < i ==> out@[j] == before@[j],
                forall|j: int| i <= j < given.len() ==> out@[j] == given[j],
            decreases take - i,
        {
            out[i] = self.buf[pos];
            pos = if pos + 1 == cap {
                0
            } else {
                pos + 1
            };
            i = i + 1;
        }
        self.tail = self.tail.wrapping_add(take);
        proof {
            before.lemma_cell_of_index(take as int);
            assert(self.len() == used - take);
            assert(out@ =~= before@.take(take as int) + given.skip(take as int));
            assert(self@ =~= before@.skip(take as int)) by {
                let new_start = self.tail as int % self.cap();
                assert(new_start == cell(start, take as int, cap as int) % (cap as int));
                if cell(start, take as int, cap as int) < cap {
                    div_mod::lemma_small_mod(
                        cell(start, take as int, cap as int) as nat,
                        cap as nat,
                    );
                }
            }
        }
        take
    }
}

impl<T: Copy + Default> JitterBuffer<T> {
    /// A buffer whose capacity is the smallest power of two that holds
    /// `capacity_samples`, and at least 1024.
    pub fn new(capacity_samples: usize) -> (b: Self)
        requires
            capacity_samples <= usize::MAX / 2 + 1,
        ensures
            b.wf(),
            b@ == Seq::<T>::empty(),
            is_power_of_two(b.size()),
            requested(capacity_samples) <= b.size() < 2 * requested(capacity_samples),
            b.overrun_count() == 0,
            b.underrun_count() == 0,
    {
        let cap: usize = next_pow2(capacity_samples);
        let mut buf: Vec<T> = Vec::with_capacity(cap);
        let mut i: usize = 0;
        while i < cap
            invariant
                i <= cap,
                buf@.len() == i,
            decreases cap - i,
        {
            buf.push(T::default());
            i = i + 1;
        }
        JitterBuffer { buf, head: 0, tail: 0, overruns: 0, underruns: 0 }
    }
}

/// One use of a buffer: a block offered, or a read of up to so many samples.
pub enum Transfer<T> {
    Push(Seq<T>),
    Pop(nat),
}

/// The contents of a buffer of `cap` samples after a history of transfers.
pub open spec fn contents_after<T>(cap: int, history: Seq<Transfer<T>>) -> Seq<T>
    decreases history.len(),
{
    if history.len() == 0 {
        Seq::empty()
    } else {
        let contents = contents_after(cap, history.drop_last());
        match history.last() {
            Transfer::Push(block) => after_push(cap, contents, block),
            Transfer::Pop(wanted) => contents.skip(popped(contents, wanted) as int),
        }
    }
}

/// The samples read during a history, in the order they were read.
pub open spec fn delivered<T>(cap: int, history: Seq<Transfer<T>>) -> Seq<T>
    decreases history.len(),
{
    if history.len() == 0 {
        Seq::empty()
    } else {
        let earlier = delivered(cap, history.drop_last());
        let contents = contents_after(cap, history.drop_last());
        match history.last() {
            Transfer::Push(_) => earlier,
            Transfer::Pop(wanted) => earlier + contents.take(popped(contents, wanted) as int),
        }
    }
}

/// The blocks of a history that fitted, joined in the order they were offered.
pub open spec fn accepted<T>(cap: int, history: Seq<Transfer<T>>) -> Seq<T>
    decreases history.len(),
{
    if history.len() == 0 {
        Seq::empty()
    } else {
        let earlier = accepted(cap, history.drop_last());
        match history.last() {
            Transfer::Push(block) => if fits(
                cap,
                contents_after(cap, history.drop_last()),
                block,
            ) {
                earlier + block
            } else {
                earlier
            },
            Transfer::Pop(_) => earlier,
        }
    }
}

/// First in, first out: over any history of writes and reads, what was read
/// followed by what is still buffered is exactly the accepted blocks, whole and
/// in order. No more is ever buffered than fits.
pub proof fn stream_is_linear<T>(cap: int, history: Seq<Transfer<T>>)
    requires
        0 <= cap,
    ensures
        delivered(cap, history) + contents_after(cap, history) == accepted(cap, history),
        contents_after(cap, history).len() <= cap,
    decreases history.len(),
{
    if history.len() == 0 {
        assert(delivered(cap, history) + contents_after(cap, history) =~= accepted(cap, history));
    } else {
        let earlier = history.drop_last();
        stream_is_linear(cap, earlier);
        let contents = contents_after(cap, earlier);
        match history.last() {
            Transfer::Push(block) => {
                assert(delivered(cap, earlier) + (contents + block) =~= (delivered(cap, earlier)
                    + contents) + block);
            },
            Transfer::Pop(wanted) => {
                let n = popped(contents, wanted) as int;
                assert((delivered(cap, earlier) + contents.take(n)) + contents.skip(n) =~= delivered(
                    cap,
                    earlier,
                ) + contents);
            },
        }
    }
}

/// A block is stored exactly if it fits beside what is there: then it stands whole
/// behind it, and otherwise nothing changes.
pub proof fn room_is_used_to_the_last_sample<T>(cap: int, contents: Seq<T>, block: Seq<T>)
    ensures
        contents.len() + block.len() <= cap ==> {
            &&& after_push(cap, contents, block).len() == contents.len() + block.len()
            &&& after_push(cap, contents, block).take(contents.len() as int) == contents
            &&& after_push(cap, contents, block).skip(contents.len() as int) == block
        },
        contents.len() + block.len() > cap ==> after_push(cap, contents, block) == contents,
        fits(cap, contents, block) <==> contents.len() + block.len() <= cap,
{
    assert((contents + block).take(contents.len() as int) =~= contents);
    assert((contents + block).skip(contents.len() as int) =~= block);
}

/// A read takes as much as was wanted, or all there is: in two reads as much as in
/// one.
pub proof fn reads_take_what_is_there<T>(contents: Seq<T>, first: nat, second: nat)
    ensures
        popped(contents, first) <= first,
        popped(contents, first) <= contents.len(),
        popped(contents, first) == first || popped(contents, first) == contents.len(),
        popped(contents, first + second) == popped(contents, first) + popped(
            contents.skip(popped(contents, first) as int),
            second,
        ),
{
}

/// What was pushed is what is popped, as far as there is room for it, and behind
/// what was there before.
pub proof fn pushed_samples_are_popped<T: Copy>(
    b: &mut JitterBuffer<T>,
    samples: &[T],
    stored: usize,
    c: &mut JitterBuffer<T>,
    out: &mut [T],
    read: usize,
)
    requires
        old(b).wf(),
        call_ensures(JitterBuffer::<T>::push, (b, samples), stored),
        *old(c) == *final(b),
        call_ensures(JitterBuffer::<T>::pop, (c, out), read),
        old(b).overrun_count() < u64::MAX,
    ensures
        ({
            let room = old(b).size() - old(b)@.len();
            let all = old(b)@ + samples@;
            &&& samples@.len() <= room ==> stored == samples@.len()
            &&& samples@.len() > room ==> stored == 0
            &&& final(b).overrun_count() - old(b).overrun_count() == (if samples@.len() > room {
                1int
            } else {
                0
            })
            &&& final(b).underrun_count() == old(b).underrun_count()
            &&& samples@.len() <= room ==> final(out)@.take(read as int) + final(c)@ == all
            &&& samples@.len() > room ==> final(out)@.take(read as int) + final(c)@ == old(b)@
            &&& read == old(out)@.len() || final(c)@.len() == 0
            &&& read <= old(out)@.len()
            &&& final(out)@.skip(read as int) == old(out)@.skip(read as int)
            &&& final(c).overrun_count() == old(c).overrun_count()
            &&& final(c).underrun_count() == old(c).underrun_count()
        }),
{
    old(b).contents_fit();
    let n = read as int;
    assert(final(out)@.take(n) =~= old(c)@.take(n));
    assert(old(c)@.take(n) + old(c)@.skip(n) =~= old(c)@);
    assert(final(out)@.skip(n) =~= old(out)@.skip(n));
}

/// What is buffered and what is free make up the capacity, and the fill says so; an
/// underrun is counted as one and moves no sample, and a reset leaves nothing.
pub proof fn buffer_adds_up<T: Copy>(
    b: &mut JitterBuffer<T>,
    c: &mut JitterBuffer<T>,
    capacity: usize,
    available: usize,
    free: usize,
    fill: (usize, usize),
)
    requires
        old(b).wf(),
        old(c).wf(),
        call_ensures(JitterBuffer::<T>::capacity, (&*old(b),), capacity),
        call_ensures(JitterBuffer::<T>::available, (&*old(b),), available),
        call_ensures(JitterBuffer::<T>::free, (&*old(b),), free),
        call_ensures(JitterBuffer::<T>::fill_ratio, (&*old(b),), fill),
        call_ensures(JitterBuffer::<T>::note_underrun, (b,), ()),
        call_ensures(JitterBuffer::<T>::reset, (c,), ()),
        old(b).underrun_count() < u64::MAX,
    ensures
        available + free == capacity,
        available == old(b)@.len(),
        fill == (available, capacity),
        final(b)@ == old(b)@,
        final(b).underrun_count() - old(b).underrun_count() == 1,
        final(b).overrun_count() == old(b).overrun_count(),
        final(c)@.len() == 0,
        final(c).overrun_count() == 0,
        final(c).underrun_count() == 0,
        final(c).size() == old(c).size(),
{
}

/// A capacity is at least what was asked for, and at least 1024.
pub proof fn capacity_is_what_was_asked_for(x: usize)
    ensures
        requested(x) >= x,
        requested(x) >= 1024,
        x >= 1024 ==> requested(x) == x,
        x <= 1024 ==> requested(x) == 1024,
{
}

/// A buffer starts empty, has room for what was asked and for 1024 at least, and less
/// than twice as much.
pub proof fn buffers_start_empty<T: Copy + Default>(asked: usize, b: JitterBuffer<T>)
    requires
        call_ensures(JitterBuffer::<T>::new, (asked,), b),
    ensures
        b@.len() == 0,
        b.size() >= asked && b.size() >= 1024,
        b.size() < 2 * asked || b.size() < 2048,
        b.overrun_count() == 0 && b.underrun_count() == 0,
        is_power_of_two(b.size()),
{
}

/// A buffer tells its counts as they are.
pub proof fn buffers_tell_their_counts<T: Copy>(b: &JitterBuffer<T>, overruns: u64, underruns: u64)
    requires
        call_ensures(JitterBuffer::<T>::overruns, (b,), overruns),
        call_ensures(JitterBuffer::<T>::underruns, (b,), underruns),
    ensures
        overruns == b.overrun_count(),
        underruns == b.underrun_count(),
        MIN_PREBUFFER_MS <= TARGET_PREBUFFER_MS <= MAX_PREBUFFER_MS,
        TARGET_PREBUFFER_MS == 10,
{
}

} // verus!
