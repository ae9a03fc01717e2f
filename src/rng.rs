//! The linear-congruential generator.

use crate::word::{word_limit, Word};
use vstd::arithmetic::div_mod::{lemma_add_mod_noop, lemma_small_mod};
use vstd::arithmetic::power2::{lemma2_to64, lemma_pow2_pos};
use vstd::prelude::*;
use vstd::wrapping::usize_specs;

verus! {

/// One step of the recurrence: `a * s + c` in wraparound arithmetic on `T`,
/// then reduced modulo `m`.
pub open spec fn lcg_next<T: Word>(a: nat, c: nat, m: nat, s: nat) -> nat {
    ((a * s + c) % word_limit::<T>()) % m
}

/// The values that `n` successive steps from state `s` produce, in order.
pub open spec fn lcg_outputs<T: Word>(a: nat, c: nat, m: nat, s: nat, n: nat) -> Seq<nat>
    decreases n,
{
    if n == 0 {
        Seq::empty()
    } else {
        let t = lcg_next::<T>(a, c, m, s);
        seq![t] + lcg_outputs::<T>(a, c, m, t, (n - 1) as nat)
    }
}

/// The default `(a, c, m)` for a word of `bits` bits. Widths other than 8,
/// 16 and 32 take the 32-bit constants with modulus `2^32` itself, where the
/// listed widths use one less than a power of two.
pub open spec fn default_params(bits: nat) -> (nat, nat, nat) {
    if bits == 8 {
        (13, 7, 31)
    } else if bits == 16 {
        (25173, 13849, 0xffff)
    } else if bits == 32 {
        (1664525, 1013904223, 0xffff_ffff)
    } else {
        (1664525, 1013904223, 0x1_0000_0000)
    }
}

/// Folds the high bits of `x` into its low bits.
pub open spec fn fold_high(x: usize) -> usize {
    x ^ (x >> 31usize)
}

/// The seed that [`mix_seed`] derives from an address and a hash of ambient
/// noise: the two are combined, offset by the golden-ratio constant, and
/// passed through three fold rounds with odd multipliers in between, all in
/// wraparound arithmetic.
pub open spec fn mixed_seed(address: usize, noise: usize) -> usize {
    let start = address ^ (noise << 7usize) ^ (address >> 3usize);
    let s1 = fold_high(usize_specs::wrapping_add(start, 0x9e37_79b9));
    let s2 = fold_high(usize_specs::wrapping_mul(s1, 0x85eb_ca6b));
    fold_high(usize_specs::wrapping_mul(s2, 0xc2b2_ae35))
}

/// Derives a seed from locally observed, non-deterministic values: the
/// address of a stack variable and a hash of further noise (addresses, the
/// time). Not reproducible across runs by design, and not cryptographic.
pub fn mix_seed(address: usize, noise: usize) -> (r: usize)
    ensures
        r == mixed_seed(address, noise),
{
    let mut seed: usize = address ^ (noise << 7) ^ (address >> 3);
    seed = seed.wrapping_add(0x9e37_79b9);
    seed = seed ^ (seed >> 31);
    seed = seed.wrapping_mul(0x85eb_ca6b);
    seed = seed ^ (seed >> 31);
    seed = seed.wrapping_mul(0xc2b2_ae35);
    seed = seed ^ (seed >> 31);
    seed
}

/// A linear-congruential generator: `seed' = (a * seed + c) mod m`, with the
/// product and sum wrapping around at the width of `T`.
///
/// Not suitable where security depends on the numbers drawn.
pub struct RandomNumberGenerator<T: Word> {
    seed: T,
    a: T,
    c: T,
    m: T,
}

impl<T: Word> RandomNumberGenerator<T> {
    /// The current state.
    pub closed spec fn spec_seed(&self) -> nat {
        self.seed.value()
    }

    /// The multiplier `a`.
    pub closed spec fn spec_a(&self) -> nat {
        self.a.value()
    }

    /// The increment `c`.
    pub closed spec fn spec_c(&self) -> nat {
        self.c.value()
    }

    /// The modulus `m`.
    pub closed spec fn spec_m(&self) -> nat {
        self.m.value()
    }

    /// A generator can step only with a nonzero modulus.
    pub open spec fn wf(&self) -> bool {
        self.spec_m() != 0
    }

    /// The state that the next step moves to.
    pub open spec fn spec_next(&self) -> nat {
        lcg_next::<T>(self.spec_a(), self.spec_c(), self.spec_m(), self.spec_seed())
    }

    /// The values that the next `n` calls of `next` return.
    pub open spec fn outputs(&self, n: nat) -> Seq<nat> {
        lcg_outputs::<T>(self.spec_a(), self.spec_c(), self.spec_m(), self.spec_seed(), n)
    }

    /// Both generators hold the same state and parameters.
    pub open spec fn same_as(&self, other: &Self) -> bool {
        &&& self.spec_seed() == other.spec_seed()
        &&& self.spec_a() == other.spec_a()
        &&& self.spec_c() == other.spec_c()
        &&& self.spec_m() == other.spec_m()
    }

    /// Creates a generator with the given seed, multiplier, increment and
    /// modulus. The modulus must not be zero.
    pub fn new_custom(seed: T, a: T, c: T, m: T) -> (r: Self)
        requires
            m.value() != 0,
        ensures
            r.wf(),
            r.spec_seed() == seed.value(),
            r.spec_a() == a.value(),
            r.spec_c() == c.value(),
            r.spec_m() == m.value(),
    {
        RandomNumberGenerator { seed, a, c, m }
    }

    /// Advances the state by one step of the recurrence and returns the new state.
    pub fn next(&mut self) -> (r: T)
        requires
            old(self).wf(),
        ensures
            final(self).wf(),
            final(self).spec_a() == old(self).spec_a(),
            final(self).spec_c() == old(self).spec_c(),
            final(self).spec_m() == old(self).spec_m(),
            final(self).spec_seed() == old(self).spec_next(),
            r.value() == final(self).spec_seed(),
    {
        let ghost l = word_limit::<T>();
        let ghost a = self.a.value();
        let ghost s = self.seed.value();
        let ghost c = self.c.value();
        proof {
            T::lemma_width();
            lemma_pow2_pos(T::spec_bits());
            T::lemma_value_bound(self.c);
            lemma_small_mod(c, l);
            lemma_add_mod_noop((a * s) as int, c as int, l as int);
        }
        self.seed = self.a.wrap_mul(self.seed).wrap_add(self.c).rem(self.m);
        self.seed
    }

    /// Draws the next value and reduces it modulo `max`, which must not be
    /// zero. Where `max` does not divide the modulus, smaller results are
    /// somewhat likelier than larger ones.
    pub fn range(&mut self, max: T) -> (r: T)
        requires
            old(self).wf(),
            max.value() != 0,
        ensures
            final(self).wf(),
            final(self).spec_a() == old(self).spec_a(),
            final(self).spec_c() == old(self).spec_c(),
            final(self).spec_m() == old(self).spec_m(),
            final(self).spec_seed() == old(self).spec_next(),
            r.value() == final(self).spec_seed() % max.value(),
            r.value() < max.value(),
            max.value() == 1 ==> r.value() == 0,
    {
        let v = self.next();
        v.rem(max)
    }

    /// The default multiplier, increment and modulus for the width of `T`.
    fn default_values() -> (r: (T, T, T))
        ensures
            (r.0.value(), r.1.value(), r.2.value()) == default_params(T::spec_bits()),
    {
        let bits = T::bits();
        proof {
            T::lemma_width();
            lemma2_to64();
        }
        if bits == 8 {
            assert(word_limit::<T>() == 0x100);
            (T::from_u64(13).unwrap(), T::from_u64(7).unwrap(), T::from_u64(31).unwrap())
        } else if bits == 16 {
            assert(word_limit::<T>() == 0x1_0000);
            (
                T::from_u64(25173).unwrap(),
                T::from_u64(13849).unwrap(),
                T::from_u64(0xffff).unwrap(),
            )
        } else if bits == 32 {
            assert(word_limit::<T>() == 0x1_0000_0000);
            (
                T::from_u64(1664525).unwrap(),
                T::from_u64(1013904223).unwrap(),
                T::from_u64(0xffff_ffff).unwrap(),
            )
        } else {
            assert(word_limit::<T>() == 0x1_0000_0000_0000_0000);
            (
                T::from_u64(1664525).unwrap(),
                T::from_u64(1013904223).unwrap(),
                T::from_u64(0x1_0000_0000).unwrap(),
            )
        }
    }

    /// Creates a generator with the default parameters for the width of `T`,
    /// seeded with `seed_word` where it fits in `T`, and with zero where it
    /// does not.
    pub fn new(seed_word: usize) -> (r: Self)
        ensures
            r.wf(),
            r.spec_seed() == (if seed_word < word_limit::<T>() { seed_word as nat } else { 0 }),
            (r.spec_a(), r.spec_c(), r.spec_m()) == default_params(T::spec_bits()),
    {
        let (a, c, m) = Self::default_values();
        let seed = match T::from_usize(seed_word) {
            Some(s) => s,
            None => T::min_value(),
        };
        RandomNumberGenerator { seed, a, c, m }
    }
    /// The current state.
    pub fn seed(&self) -> (r: T)
        ensures
            r.value() == self.spec_seed(),
    {
        self.seed
    }

    /// The multiplier `a`.
    pub fn multiplier(&self) -> (r: T)
        ensures
            r.value() == self.spec_a(),
    {
        self.a
    }

    /// The increment `c`.
    pub fn increment(&self) -> (r: T)
        ensures
            r.value() == self.spec_c(),
    {
        self.c
    }

    /// The modulus `m`.
    pub fn modulus(&self) -> (r: T)
        ensures
            r.value() == self.spec_m(),
    {
        self.m
    }
}

/// Two generators created from the same seed, multiplier, increment and
/// modulus return the same values, call for call, for any number of calls.
pub proof fn lemma_determinism<T: Word>(
    seed: T,
    a: T,
    c: T,
    m: T,
    g1: RandomNumberGenerator<T>,
    g2: RandomNumberGenerator<T>,
    n: nat,
)
    requires
        g1.spec_seed() == seed.value() && g1.spec_a() == a.value(),
        g1.spec_c() == c.value() && g1.spec_m() == m.value(),
        g2.spec_seed() == seed.value() && g2.spec_a() == a.value(),
        g2.spec_c() == c.value() && g2.spec_m() == m.value(),
    ensures
        g1.outputs(n) == g2.outputs(n),
{
}

/// A call of `next` returns the first of the values that the generator has
/// ahead of it, and leaves a generator that has the rest ahead of it.
pub proof fn lemma_next_takes_first_output<T: Word>(
    before: RandomNumberGenerator<T>,
    after: RandomNumberGenerator<T>,
    n: nat,
)
    requires
        after.spec_a() == before.spec_a(),
        after.spec_c() == before.spec_c(),
        after.spec_m() == before.spec_m(),
        after.spec_seed() == before.spec_next(),
    ensures
        before.outputs(n + 1) == seq![after.spec_seed()] + after.outputs(n),
{
}

} // verus!
