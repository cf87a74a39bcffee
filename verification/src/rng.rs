//! The SplitMix64 generator.

use vstd::prelude::*;

verus! {

/// The increment of the generator's state.
pub const INCREMENT: u64 = 0x9E37_79B9_7F4A_7C15;

/// First mixing factor.
pub const FIRST_FACTOR: u64 = 0xBF58_476D_1CE4_E5B9;

/// Second mixing factor.
pub const SECOND_FACTOR: u64 = 0x94D0_49BB_1331_11EB;

/// The denominator of a drawn fraction: 2^53.
pub const UNIT: u64 = 0x20_0000_0000_0000;

/// The state after `state`.
pub open spec fn next_state(state: u64) -> u64 {
    state.wrapping_add(INCREMENT)
}

/// The number drawn in `state`: two rounds of multiply and shift.
pub open spec fn mixed(state: u64) -> u64 {
    let a = (state ^ (state >> 30)).wrapping_mul(FIRST_FACTOR);
    let b = (a ^ (a >> 27)).wrapping_mul(SECOND_FACTOR);
    b ^ (b >> 31)
}

/// The upper 53 bits of a number: the numerator of a fraction over 2^53.
pub open spec fn numerator(n: u64) -> u64 {
    n >> 11
}

/// A small, fast 64-bit generator. The same seed gives the same numbers.
#[derive(Debug, Clone)]
pub struct SplitMix64 {
    state: u64,
}

impl View for SplitMix64 {
    type V = u64;

    closed spec fn view(&self) -> u64 {
        self.state
    }
}

impl SplitMix64 {
    /// A generator for a seed; 0 is a valid seed.
    pub fn new(seed: u64) -> (g: Self)
        ensures
            g@ == seed,
    {
        SplitMix64 { state: seed }
    }

    /// The next number.
    pub fn next_u64(&mut self) -> (n: u64)
        ensures
            final(self)@ == next_state(old(self)@),
            n == mixed(final(self)@),
    {
        self.state = self.state.wrapping_add(INCREMENT);
        let z: u64 = self.state;
        let a: u64 = (z ^ (z >> 30)).wrapping_mul(FIRST_FACTOR);
        let b: u64 = (a ^ (a >> 27)).wrapping_mul(SECOND_FACTOR);
        b ^ (b >> 31)
    }

    /// The next fraction in `[0, 1)`, as its numerator over 2^53.
    pub fn next_f64(&mut self) -> (n: u64)
        ensures
            final(self)@ == next_state(old(self)@),
            n == numerator(mixed(final(self)@)),
            n < UNIT,
    {
        let n: u64 = self.next_u64();
        assert(n >> 11 < 0x20_0000_0000_0000) by (bit_vector);
        n >> 11
    }
}

/// The state after `n` numbers were drawn from `seed`.
pub open spec fn state_after(seed: u64, n: nat) -> u64
    decreases n,
{
    if n == 0 {
        seed
    } else {
        next_state(state_after(seed, (n - 1) as nat))
    }
}

/// The first `n` numbers drawn from a seed.
pub open spec fn stream(seed: u64, n: nat) -> Seq<u64> {
    Seq::new(n, |i: int| mixed(state_after(seed, (i + 1) as nat)))
}

/// No two states draw the same number: mixing loses nothing.
pub proof fn mixing_is_injective(s: u64, t: u64)
    ensures
        mixed(s) == mixed(t) ==> s == t,
{
    let s1 = s ^ (s >> 30);
    let t1 = t ^ (t >> 30);
    let a = s1.wrapping_mul(FIRST_FACTOR);
    let c = t1.wrapping_mul(FIRST_FACTOR);
    let a1 = a ^ (a >> 27);
    let c1 = c ^ (c >> 27);
    let b = a1.wrapping_mul(SECOND_FACTOR);
    let d = c1.wrapping_mul(SECOND_FACTOR);
    assert(b ^ (b >> 31) == d ^ (d >> 31) ==> b == d) by (bit_vector);
    lemma_multiply_is_injective(a1, c1, SECOND_FACTOR, 0x3196_42B2_D24D_8EC3);
    assert(a ^ (a >> 27) == c ^ (c >> 27) ==> a == c) by (bit_vector);
    lemma_multiply_is_injective(s1, t1, FIRST_FACTOR, 0x96DE_1B17_3F11_9089);
    assert(s ^ (s >> 30) == t ^ (t >> 30) ==> s == t) by (bit_vector);
}

/// Multiplying modulo 2^64 by a factor that has an inverse loses nothing.
proof fn lemma_multiply_is_injective(x: u64, y: u64, factor: u64, inverse: u64)
    requires
        (factor * inverse) % 0x1_0000_0000_0000_0000 == 1,
    ensures
        x.wrapping_mul(factor) == y.wrapping_mul(factor) ==> x == y,
{
    let m: int = 0x1_0000_0000_0000_0000;
    let f = factor as int;
    let g = inverse as int;
    assert(((x as int * f) % m * g) % m == x as int) by {
        lemma_undo(x as int, f, g, m);
    }
    assert(((y as int * f) % m * g) % m == y as int) by {
        lemma_undo(y as int, f, g, m);
    }
}

proof fn lemma_undo(x: int, f: int, g: int, m: int)
    requires
        0 <= x < m,
        (f * g) % m == 1,
    ensures
        ((x * f) % m * g) % m == x,
{
    vstd::arithmetic::div_mod::lemma_mul_mod_noop_left(x * f, g, m);
    vstd::arithmetic::mul::lemma_mul_is_associative(x, f, g);
    vstd::arithmetic::div_mod::lemma_mul_mod_noop_right(x, f * g, m);
    vstd::arithmetic::div_mod::lemma_small_mod(x as nat, m as nat);
}

/// Streams of different seeds differ in every place.
pub proof fn different_seeds_differ_everywhere(seed: u64, other: u64, n: nat)
    requires
        seed != other,
    ensures
        forall|i: int| 0 <= i < n ==> #[trigger] stream(seed, n)[i] != stream(other, n)[i],
{
    assert forall|i: int| 0 <= i < n implies #[trigger] stream(seed, n)[i] != stream(
        other,
        n,
    )[i] by {
        lemma_states_differ(seed, other, (i + 1) as nat);
        mixing_is_injective(
            state_after(seed, (i + 1) as nat),
            state_after(other, (i + 1) as nat),
        );
    }
}

proof fn lemma_states_differ(seed: u64, other: u64, n: nat)
    requires
        seed != other,
    ensures
        state_after(seed, n) != state_after(other, n),
    decreases n,
{
    if n > 0 {
        lemma_states_differ(seed, other, (n - 1) as nat);
    }
}

/// A drawn fraction is the drawn number over 2^64, rounded down to 53 bits.
pub proof fn fractions_are_the_upper_bits(n: u64)
    ensures
        numerator(n) * 2048 <= n < (numerator(n) + 1) * 2048,
        numerator(n) < UNIT,
        UNIT * 2048 == 0x1_0000_0000_0000_0000,
{
    assert((n >> 11) == n / 2048) by (bit_vector);
}

/// Each number is mixed from the state, which goes up by a fixed step each time, and a
/// fraction is the upper 53 bits of the number.
pub proof fn numbers_follow_the_seed(
    seed: u64,
    g: SplitMix64,
    a: &mut SplitMix64,
    n: u64,
    b: &mut SplitMix64,
    f: u64,
)
    requires
        call_ensures(SplitMix64::new, (seed,), g),
        *old(a) == g,
        call_ensures(SplitMix64::next_u64, (a,), n),
        *old(b) == g,
        call_ensures(SplitMix64::next_f64, (b,), f),
    ensures
        final(a)@ == (seed + 0x9E37_79B9_7F4A_7C15) % 0x1_0000_0000_0000_0000,
        final(b)@ == final(a)@,
        f == n / 2048,
        n == mixed(final(a)@),
{
    fractions_are_the_upper_bits(n);
}

/// A number in numbers: the state and its whole part over 2^30, added without carrying,
/// times one factor; that and its whole part over 2^27 likewise times another; and of that
/// the sum without carrying with its whole part over 2^31.
pub proof fn rounds_of_the_generator(z: u64, a: u64, b: u64)
    requires
        a == ((z ^ (z / 0x4000_0000)) * 0xBF58_476D_1CE4_E5B9) % 0x1_0000_0000_0000_0000,
        b == ((a ^ (a / 0x800_0000)) * 0x94D0_49BB_1331_11EB) % 0x1_0000_0000_0000_0000,
    ensures
        mixed(z) == b ^ (b / 0x8000_0000),
{
    assert(z >> 30 == z / 0x4000_0000) by (bit_vector);
    assert(a >> 27 == a / 0x800_0000) by (bit_vector);
    assert(b >> 31 == b / 0x8000_0000) by (bit_vector);
}

} // verus!
