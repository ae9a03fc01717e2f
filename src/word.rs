//! Unsigned fixed-width integers as the generator sees them: a numeric value
//! below `2^bits`, with wraparound multiply and add.

use vstd::arithmetic::power2::pow2;
use vstd::prelude::*;

verus! {

/// The number of distinct values of `T`, `2^bits`.
pub open spec fn word_limit<T: Word>() -> nat {
    pow2(T::spec_bits())
}

/// An unsigned fixed-width integer type.
pub trait Word: Sized + Copy {
    /// The width of the type in bits.
    spec fn spec_bits() -> nat;

    /// The numeric value of `self`.
    spec fn value(self) -> nat;

    /// Widths are those of the primitive unsigned types.
    proof fn lemma_width()
        ensures
            Self::spec_bits() == 8 || Self::spec_bits() == 16 || Self::spec_bits() == 32
                || Self::spec_bits() == 64,
    ;

    /// Every value lies below `2^bits`.
    proof fn lemma_value_bound(x: Self)
        ensures
            x.value() < pow2(Self::spec_bits()),
    ;

    /// The width in bits.
    fn bits() -> (r: u32)
        ensures
            r as nat == Self::spec_bits(),
    ;

    /// The smallest value of the type, zero.
    fn min_value() -> (r: Self)
        ensures
            r.value() == 0,
    ;

    /// The product, reduced modulo `2^bits`.
    fn wrap_mul(self, rhs: Self) -> (r: Self)
        ensures
            r.value() == (self.value() * rhs.value()) % pow2(Self::spec_bits()),
    ;

    /// The sum, reduced modulo `2^bits`.
    fn wrap_add(self, rhs: Self) -> (r: Self)
        ensures
            r.value() == (self.value() + rhs.value()) % pow2(Self::spec_bits()),
    ;

    /// The remainder of division by a nonzero `rhs`.
    fn rem(self, rhs: Self) -> (r: Self)
        requires
            rhs.value() != 0,
        ensures
            r.value() == self.value() % rhs.value(),
    ;

    /// `w` as a word, where it fits.
    fn from_usize(w: usize) -> (r: Option<Self>)
        ensures
            r is Some <==> w < pow2(Self::spec_bits()),
            r is Some ==> r->0.value() == w,
    ;

    /// `v` as a word, where it fits.
    fn from_u64(v: u64) -> (r: Option<Self>)
        ensures
            r is Some <==> v < pow2(Self::spec_bits()),
            r is Some ==> r->0.value() == v,
    ;
}

/// `usize` spans `2^BITS` values, with `BITS` either 32 or 64.
proof fn lemma_usize_limit()
    ensures
        usize::BITS == 32 || usize::BITS == 64,
        usize::MAX as nat + 1 == pow2(usize::BITS as nat),
{
    vstd::layout::unsigned_int_max_values();
}

impl Word for u8 {
    open spec fn spec_bits() -> nat {
        8
    }

    open spec fn value(self) -> nat {
        self as nat
    }

    proof fn lemma_width() {
    }

    proof fn lemma_value_bound(x: Self) {
        vstd::arithmetic::power2::lemma2_to64();
    }

    fn bits() -> (r: u32) {
        u8::BITS
    }

    fn min_value() -> (r: Self) {
        0
    }

    fn wrap_mul(self, rhs: Self) -> (r: Self) {
        proof {
            vstd::arithmetic::power2::lemma2_to64();
        }
        self.wrapping_mul(rhs)
    }

    fn wrap_add(self, rhs: Self) -> (r: Self) {
        proof {
            vstd::arithmetic::power2::lemma2_to64();
            if self as nat + rhs as nat >= 0x100 {
                vstd::arithmetic::div_mod::lemma_mod_sub_multiples_vanish(
                    (self as nat + rhs as nat - 0x100) as int,
                    0x100,
                );
            }
        }
        self.wrapping_add(rhs)
    }

    fn rem(self, rhs: Self) -> (r: Self) {
        self % rhs
    }

    fn from_usize(w: usize) -> (r: Option<Self>) {
        proof {
            vstd::arithmetic::power2::lemma2_to64();
        }
        if w <= u8::MAX as usize {
            Some(w as u8)
        } else {
            None
        }
    }

    fn from_u64(v: u64) -> (r: Option<Self>) {
        proof {
            vstd::arithmetic::power2::lemma2_to64();
        }
        if v <= u8::MAX as u64 {
            Some(v as u8)
        } else {
            None
        }
    }
}


impl Word for u16 {
    open spec fn spec_bits() -> nat {
        16
    }

    open spec fn value(self) -> nat {
        self as nat
    }

    proof fn lemma_width() {
    }

    proof fn lemma_value_bound(x: Self) {
        vstd::arithmetic::power2::lemma2_to64();
    }

    fn bits() -> (r: u32) {
        u16::BITS
    }

    fn min_value() -> (r: Self) {
        0
    }

    fn wrap_mul(self, rhs: Self) -> (r: Self) {
        proof {
            vstd::arithmetic::power2::lemma2_to64();
        }
        self.wrapping_mul(rhs)
    }

    fn wrap_add(self, rhs: Self) -> (r: Self) {
        proof {
            vstd::arithmetic::power2::lemma2_to64();
            if self as nat + rhs as nat >= 0x1_0000 {
                vstd::arithmetic::div_mod::lemma_mod_sub_multiples_vanish(
                    (self as nat + rhs as nat - 0x1_0000) as int,
                    0x1_0000,
                );
            }
        }
        self.wrapping_add(rhs)
    }

    fn rem(self, rhs: Self) -> (r: Self) {
        self % rhs
    }

    fn from_usize(w: usize) -> (r: Option<Self>) {
        proof {
            vstd::arithmetic::power2::lemma2_to64();
        }
        if w <= u16::MAX as usize {
            Some(w as u16)
        } else {
            None
        }
    }

    fn from_u64(v: u64) -> (r: Option<Self>) {
        proof {
            vstd::arithmetic::power2::lemma2_to64();
        }
        if v <= u16::MAX as u64 {
            Some(v as u16)
        } else {
            None
        }
    }
}


impl Word for u32 {
    open spec fn spec_bits() -> nat {
        32
    }

    open spec fn value(self) -> nat {
        self as nat
    }

    proof fn lemma_width() {
    }

    proof fn lemma_value_bound(x: Self) {
        vstd::arithmetic::power2::lemma2_to64();
    }

    fn bits() -> (r: u32) {
        u32::BITS
    }

    fn min_value() -> (r: Self) {
        0
    }

    fn wrap_mul(self, rhs: Self) -> (r: Self) {
        proof {
            vstd::arithmetic::power2::lemma2_to64();
        }
        self.wrapping_mul(rhs)
    }

    fn wrap_add(self, rhs: Self) -> (r: Self) {
        proof {
            vstd::arithmetic::power2::lemma2_to64();
            if self as nat + rhs as nat >= 0x1_0000_0000 {
                vstd::arithmetic::div_mod::lemma_mod_sub_multiples_vanish(
                    (self as nat + rhs as nat - 0x1_0000_0000) as int,
                    0x1_0000_0000,
                );
            }
        }
        self.wrapping_add(rhs)
    }

    fn rem(self, rhs: Self) -> (r: Self) {
        self % rhs
    }

    fn from_usize(w: usize) -> (r: Option<Self>) {
        proof {
            vstd::arithmetic::power2::lemma2_to64();
        }
        if w <= u32::MAX as usize {
            Some(w as u32)
        } else {
            None
        }
    }

    fn from_u64(v: u64) -> (r: Option<Self>) {
        proof {
            vstd::arithmetic::power2::lemma2_to64();
        }
        if v <= u32::MAX as u64 {
            Some(v as u32)
        } else {
            None
        }
    }
}


impl Word for u64 {
    open spec fn spec_bits() -> nat {
        64
    }

    open spec fn value(self) -> nat {
        self as nat
    }

    proof fn lemma_width() {
    }

    proof fn lemma_value_bound(x: Self) {
        vstd::arithmetic::power2::lemma2_to64();
    }

    fn bits() -> (r: u32) {
        u64::BITS
    }

    fn min_value() -> (r: Self) {
        0
    }

    fn wrap_mul(self, rhs: Self) -> (r: Self) {
        proof {
            vstd::arithmetic::power2::lemma2_to64();
        }
        self.wrapping_mul(rhs)
    }

    fn wrap_add(self, rhs: Self) -> (r: Self) {
        proof {
            vstd::arithmetic::power2::lemma2_to64();
            if self as nat + rhs as nat >= 0x1_0000_0000_0000_0000 {
                vstd::arithmetic::div_mod::lemma_mod_sub_multiples_vanish(
                    (self as nat + rhs as nat - 0x1_0000_0000_0000_0000) as int,
                    0x1_0000_0000_0000_0000,
                );
            }
        }
        self.wrapping_add(rhs)
    }

    fn rem(self, rhs: Self) -> (r: Self) {
        self % rhs
    }

    fn from_usize(w: usize) -> (r: Option<Self>) {
        proof {
            vstd::arithmetic::power2::lemma2_to64();
        }
        proof {
            lemma_usize_limit();
        }
        Some(w as u64)
    }

    fn from_u64(v: u64) -> (r: Option<Self>) {
        proof {
            vstd::arithmetic::power2::lemma2_to64();
        }
        if v <= u64::MAX as u64 {
            Some(v as u64)
        } else {
            None
        }
    }
}


impl Word for usize {
    open spec fn spec_bits() -> nat {
        usize::BITS as nat
    }

    open spec fn value(self) -> nat {
        self as nat
    }

    proof fn lemma_width() {
    }

    proof fn lemma_value_bound(x: Self) {
        lemma_usize_limit();
    }

    fn bits() -> (r: u32) {
        usize::BITS
    }

    fn min_value() -> (r: Self) {
        0
    }

    fn wrap_mul(self, rhs: Self) -> (r: Self) {
        proof {
            lemma_usize_limit();
        }
        self.wrapping_mul(rhs)
    }

    fn wrap_add(self, rhs: Self) -> (r: Self) {
        proof {
            lemma_usize_limit();
            if self as nat + rhs as nat >= (usize::MAX as nat + 1) {
                vstd::arithmetic::div_mod::lemma_mod_sub_multiples_vanish(
                    (self as nat + rhs as nat - (usize::MAX as nat + 1)) as int,
                    usize::MAX as int + 1,
                );
            }
        }
        self.wrapping_add(rhs)
    }

    fn rem(self, rhs: Self) -> (r: Self) {
        self % rhs
    }

    fn from_usize(w: usize) -> (r: Option<Self>) {
        proof {
            lemma_usize_limit();
        }
        if w <= usize::MAX as usize {
            Some(w as usize)
        } else {
            None
        }
    }

    fn from_u64(v: u64) -> (r: Option<Self>) {
        proof {
            lemma_usize_limit();
        }
        if v <= usize::MAX as u64 {
            Some(v as usize)
        } else {
            None
        }
    }
}

} // verus!
