//! Deterministic payload filler.

use vstd::prelude::*;

verus! {

/// One step of the xorshift32 generator.
pub open spec fn xorshift(state: u32) -> u32 {
    let a = state ^ (state << 13);
    let b = a ^ (a >> 17);
    b ^ (b << 5)
}

/// The generator's state after `n` steps from `seed`.
pub open spec fn state_after(seed: u32, n: nat) -> u32
    decreases n,
{
    if n == 0 {
        seed
    } else {
        xorshift(state_after(seed, (n - 1) as nat))
    }
}

/// The first `len` filler bytes for `seed`: the low byte of each state.
pub open spec fn filler(seed: u32, len: nat) -> Seq<u8> {
    Seq::new(len, |i: int| (state_after(seed, (i + 1) as nat) & 0xFF) as u8)
}

/// Fills `buf` with the xorshift32 stream of `seed`. Payloads are seeded with
/// their packet's sequence number.
pub fn fill_xorshift(buf: &mut [u8], seed: u32)
    ensures
        final(buf)@ == filler(seed, old(buf)@.len()),
{
    let mut state: u32 = seed;
    let len: usize = buf.len();
    let mut i: usize = 0;
    while i < len
        invariant
            i <= len,
            len == buf@.len(),
            state == state_after(seed, i as nat),
            buf@.take(i as int) == filler(seed, i as nat),
        decreases len - i,
    {
        let ghost before = buf@;
        let a: u32 = state ^ (state << 13);
        let b: u32 = a ^ (a >> 17);
        state = b ^ (b << 5);
        buf[i] = (state & 0xFF) as u8;
        i = i + 1;
        assert(buf@.take(i as int) =~= filler(seed, i as nat)) by {
            assert forall|j: int| 0 <= j < i implies buf@.take(i as int)[j] == filler(
                seed,
                i as nat,
            )[j] by {
                if j < i - 1 {
                    assert(before.take(i - 1)[j] == filler(seed, (i - 1) as nat)[j]);
                }
            }
        }
    }
    assert(buf@.take(i as int) =~= buf@);
}

/// `len` filler bytes for `seed`.
pub fn filled(seed: u32, len: usize) -> (v: Vec<u8>)
    ensures
        v@ == filler(seed, len as nat),
{
    let mut v: Vec<u8> = vec![0u8; len];
    fill_xorshift(v.as_mut_slice(), seed);
    v
}

/// The stream of seed 0 is all zeros.
pub proof fn zero_seed_gives_zeros(len: nat)
    ensures
        forall|i: int| 0 <= i < len ==> #[trigger] filler(0, len)[i] == 0,
{
    assert forall|i: int| 0 <= i < len implies #[trigger] filler(0, len)[i] == 0 by {
        lemma_zero_state((i + 1) as nat);
        assert((0u32 & 0xFF) == 0u32) by (bit_vector);
    }
}

proof fn lemma_zero_state(n: nat)
    ensures
        state_after(0, n) == 0,
    decreases n,
{
    if n > 0 {
        lemma_zero_state((n - 1) as nat);
        assert(({
            let a = 0u32 ^ (0u32 << 13);
            let b = a ^ (a >> 17);
            b ^ (b << 5)
        }) == 0u32) by (bit_vector);
    }
}

/// Different states never step to the same state, so streams of different
/// seeds never meet at the same place.
pub proof fn streams_never_merge(seed: u32, other: u32, n: nat)
    requires
        seed != other,
    ensures
        state_after(seed, n) != state_after(other, n),
    decreases n,
{
    if n > 0 {
        streams_never_merge(seed, other, (n - 1) as nat);
        lemma_step_is_injective(
            state_after(seed, (n - 1) as nat),
            state_after(other, (n - 1) as nat),
        );
    }
}

proof fn lemma_step_is_injective(s: u32, t: u32)
    requires
        s != t,
    ensures
        xorshift(s) != xorshift(t),
{
    let a = s ^ (s << 13);
    let b = a ^ (a >> 17);
    let c = t ^ (t << 13);
    let d = c ^ (c >> 17);
    assert(s != t ==> s ^ (s << 13) != t ^ (t << 13)) by (bit_vector);
    assert(a != c ==> a ^ (a >> 17) != c ^ (c >> 17)) by (bit_vector);
    assert(b != d ==> b ^ (b << 5) != d ^ (d << 5)) by (bit_vector);
}

/// A seed other than 0 never runs into the all-zero stream.
pub proof fn nonzero_seed_stays_nonzero(seed: u32, n: nat)
    requires
        seed != 0,
    ensures
        state_after(seed, n) != 0,
{
    streams_never_merge(seed, 0, n);
    lemma_zero_state(n);
}

/// A shorter payload is a prefix of a longer one with the same seed.
pub proof fn filler_is_a_prefix(seed: u32, len: nat, longer: nat)
    requires
        len <= longer,
    ensures
        filler(seed, longer).take(len as int) == filler(seed, len),
{
    assert(filler(seed, longer).take(len as int) =~= filler(seed, len));
}

/// Filling overwrites every byte with the stream of its seed, whatever was there, and
/// making a new payload gives the same bytes.
pub proof fn filling_depends_on_the_seed_alone(
    buf: &mut [u8],
    seed: u32,
    len: usize,
    v: Vec<u8>,
    i: int,
)
    requires
        call_ensures(fill_xorshift, (buf, seed), ()),
        call_ensures(filled, (seed, len), v),
        0 <= i < len,
        i < old(buf)@.len(),
    ensures
        final(buf)@.len() == old(buf)@.len(),
        v@.len() == len,
        final(buf)@[i] == v@[i],
        v@[i] == (state_after(seed, (i + 1) as nat) & 0xFF) as u8,
        seed == 0 ==> v@[i] == 0,
{
    zero_seed_gives_zeros(len as nat);
    if seed == 0 {
        assert(filler(0, len as nat)[i] == 0);
    }
}

/// A step of the generator in numbers: it adds, without carrying, first 2^13 times the
/// state modulo 2^32, then the whole part of what it has over 2^17, then 2^5 times that
/// modulo 2^32.
pub proof fn steps_of_the_generator(s: u32)
    ensures
        exists|a: u32, b: u32|
            {
                &&& #[trigger] (a ^ s) == (s * 8192) % 0x1_0000_0000
                &&& #[trigger] (b ^ a) == a / 131_072
                &&& xorshift(s) ^ b == (b * 32) % 0x1_0000_0000
            },
{
    let a = s ^ (s << 13);
    let b = a ^ (a >> 17);
    let x = b ^ (b << 5);
    assert(a ^ s == (s * 8192) % 0x1_0000_0000) by (bit_vector)
        requires
            a == s ^ (s << 13),
    ;
    assert(b ^ a == a / 131_072) by (bit_vector)
        requires
            b == a ^ (a >> 17),
    ;
    assert(x ^ b == (b * 32) % 0x1_0000_0000) by (bit_vector)
        requires
            x == b ^ (b << 5),
    ;
}

/// A byte of the filler is what is left of its state on division by 256, and each state
/// is one step behind the one before, the first behind the seed.
pub proof fn filler_bytes_are_low_bytes(seed: u32, len: nat, i: int)
    requires
        0 <= i < len,
    ensures
        filler(seed, len).len() == len,
        filler(seed, len)[i] == state_after(seed, (i + 1) as nat) % 256,
        state_after(seed, (i + 1) as nat) == xorshift(state_after(seed, i as nat)),
        state_after(seed, 0) == seed,
{
    let s = state_after(seed, (i + 1) as nat);
    assert((s & 0xFF) == s % 256) by (bit_vector);
    assert(((s & 0xFF) as u8) == (s & 0xFF)) by (bit_vector);
}

} // verus!
