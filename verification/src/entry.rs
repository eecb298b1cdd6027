//! The flag word of `struct checkout` (`entry.h`).
use vstd::prelude::*;

verus! {

/// Whether bit `i` of `bits` is set.
pub open spec fn bit_is_set(bits: u32, i: u32) -> bool {
    (bits >> i) & 1u32 == 1u32
}

/// `bits` with bit `i` set to `value` and every other bit kept.
pub open spec fn with_bit(bits: u32, i: u32, value: bool) -> u32 {
    if value {
        bits | (1u32 << i)
    } else {
        bits & !(1u32 << i)
    }
}

/// The flags of `struct checkout`, packed in a `u32` like the C bit-field:
/// `force` is bit 0, `quiet` bit 1, `not_new` bit 2, `clone` bit 3 and
/// `refresh_cache` bit 4; the 27 bits above them are padding.
pub struct CheckoutBitFields {
    bits: u32,
}

impl View for CheckoutBitFields {
    type V = u32;

    closed spec fn view(&self) -> u32 {
        self.bits
    }
}

/// Bit of the `force` flag.
pub const FORCE_BIT: u32 = 0;

/// Bit of the `quiet` flag.
pub const QUIET_BIT: u32 = 1;

/// Bit of the `not_new` flag.
pub const NOT_NEW_BIT: u32 = 2;

/// Bit of the `clone` flag.
pub const CLONE_BIT: u32 = 3;

/// Bit of the `refresh_cache` flag.
pub const REFRESH_CACHE_BIT: u32 = 4;

impl CheckoutBitFields {
    /// All flags cleared.
    pub fn new() -> (r: Self)
        ensures
            r@ == 0,
    {
        CheckoutBitFields { bits: 0 }
    }

    /// The flags held in a raw word, padding included.
    pub fn from_bits(bits: u32) -> (r: Self)
        ensures
            r@ == bits,
    {
        CheckoutBitFields { bits }
    }

    /// The raw word.
    pub fn into_bits(self) -> (bits: u32)
        ensures
            bits == self@,
    {
        self.bits
    }

    fn flag(&self, i: u32) -> (b: bool)
        requires
            i < 5,
        ensures
            b == bit_is_set(self@, i),
    {
        (self.bits >> i) & 1 == 1
    }

    fn set_flag(&mut self, i: u32, value: bool)
        requires
            i < 5,
        ensures
            final(self)@ == with_bit(old(self)@, i, value),
    {
        if value {
            self.bits = self.bits | (1u32 << i);
        } else {
            self.bits = self.bits & !(1u32 << i);
        }
    }

    /// Whether the `force` flag is set.
    pub fn force(&self) -> (b: bool)
        ensures
            b == bit_is_set(self@, FORCE_BIT),
    {
        self.flag(FORCE_BIT)
    }

    /// Set the `force` flag.
    pub fn set_force(&mut self, value: bool)
        ensures
            final(self)@ == with_bit(old(self)@, FORCE_BIT, value),
    {
        self.set_flag(FORCE_BIT, value)
    }

    /// A copy with the `force` flag set to `value`.
    pub fn with_force(self, value: bool) -> (r: Self)
        ensures
            r@ == with_bit(self@, FORCE_BIT, value),
    {
        let mut r = self;
        r.set_flag(FORCE_BIT, value);
        r
    }

    /// Whether the `quiet` flag is set.
    pub fn quiet(&self) -> (b: bool)
        ensures
            b == bit_is_set(self@, QUIET_BIT),
    {
        self.flag(QUIET_BIT)
    }

    /// Set the `quiet` flag.
    pub fn set_quiet(&mut self, value: bool)
        ensures
            final(self)@ == with_bit(old(self)@, QUIET_BIT, value),
    {
        self.set_flag(QUIET_BIT, value)
    }

    /// A copy with the `quiet` flag set to `value`.
    pub fn with_quiet(self, value: bool) -> (r: Self)
        ensures
            r@ == with_bit(self@, QUIET_BIT, value),
    {
        let mut r = self;
        r.set_flag(QUIET_BIT, value);
        r
    }

    /// Whether the `not_new` flag is set.
    pub fn not_new(&self) -> (b: bool)
        ensures
            b == bit_is_set(self@, NOT_NEW_BIT),
    {
        self.flag(NOT_NEW_BIT)
    }

    /// Set the `not_new` flag.
    pub fn set_not_new(&mut self, value: bool)
        ensures
            final(self)@ == with_bit(old(self)@, NOT_NEW_BIT, value),
    {
        self.set_flag(NOT_NEW_BIT, value)
    }

    /// A copy with the `not_new` flag set to `value`.
    pub fn with_not_new(self, value: bool) -> (r: Self)
        ensures
            r@ == with_bit(self@, NOT_NEW_BIT, value),
    {
        let mut r = self;
        r.set_flag(NOT_NEW_BIT, value);
        r
    }

    /// Whether the `clone` flag is set.
    pub fn clone(&self) -> (b: bool)
        ensures
            b == bit_is_set(self@, CLONE_BIT),
    {
        self.flag(CLONE_BIT)
    }

    /// Set the `clone` flag.
    pub fn set_clone(&mut self, value: bool)
        ensures
            final(self)@ == with_bit(old(self)@, CLONE_BIT, value),
    {
        self.set_flag(CLONE_BIT, value)
    }

    /// A copy with the `clone` flag set to `value`.
    pub fn with_clone(self, value: bool) -> (r: Self)
        ensures
            r@ == with_bit(self@, CLONE_BIT, value),
    {
        let mut r = self;
        r.set_flag(CLONE_BIT, value);
        r
    }

    /// Whether the `refresh_cache` flag is set.
    pub fn refresh_cache(&self) -> (b: bool)
        ensures
            b == bit_is_set(self@, REFRESH_CACHE_BIT),
    {
        self.flag(REFRESH_CACHE_BIT)
    }

    /// Set the `refresh_cache` flag.
    pub fn set_refresh_cache(&mut self, value: bool)
        ensures
            final(self)@ == with_bit(old(self)@, REFRESH_CACHE_BIT, value),
    {
        self.set_flag(REFRESH_CACHE_BIT, value)
    }

    /// A copy with the `refresh_cache` flag set to `value`.
    pub fn with_refresh_cache(self, value: bool) -> (r: Self)
        ensures
            r@ == with_bit(self@, REFRESH_CACHE_BIT, value),
    {
        let mut r = self;
        r.set_flag(REFRESH_CACHE_BIT, value);
        r
    }
}

impl Default for CheckoutBitFields {
    /// All flags cleared.
    fn default() -> (r: Self)
        ensures
            r@ == 0,
    {
        CheckoutBitFields { bits: 0 }
    }
}

/// Setting a flag and reading it back gives the value set; every other bit,
/// the other flags and the padding, keeps its value.
pub proof fn lemma_set_then_get(bits: u32, i: u32, value: bool)
    requires
        i < 5,
    ensures
        bit_is_set(with_bit(bits, i, value), i) == value,
        forall|j: u32| j < 32 && j != i ==> bit_is_set(with_bit(bits, i, value), j) == bit_is_set(bits, j),
{
    if value {
        assert(((bits | (1u32 << i)) >> i) & 1u32 == 1u32) by (bit_vector)
            requires
                i < 5,
        ;
        assert forall|j: u32| j < 32 && j != i implies bit_is_set(with_bit(bits, i, value), j) == bit_is_set(bits, j) by {
            assert((((bits | (1u32 << i)) >> j) & 1u32 == 1u32) == (((bits >> j) & 1u32) == 1u32)) by (bit_vector)
                requires
                    i < 5,
                    j < 32,
                    j != i,
            ;
        }
    } else {
        assert(((bits & !(1u32 << i)) >> i) & 1u32 == 0u32) by (bit_vector)
            requires
                i < 5,
        ;
        assert forall|j: u32| j < 32 && j != i implies bit_is_set(with_bit(bits, i, value), j) == bit_is_set(bits, j) by {
            assert((((bits & !(1u32 << i)) >> j) & 1u32 == 1u32) == (((bits >> j) & 1u32) == 1u32)) by (bit_vector)
                requires
                    i < 5,
                    j < 32,
                    j != i,
            ;
        }
    }
}

/// A cleared word has every flag unset.
pub proof fn lemma_new_has_no_flags(i: u32)
    requires
        i < 32,
    ensures
        !bit_is_set(0u32, i),
{
    assert((0u32 >> i) & 1u32 == 0u32) by (bit_vector);
}

/// Setting a flag twice keeps only the second value.
pub proof fn lemma_set_twice(bits: u32, i: u32, first: bool, second: bool)
    requires
        i < 5,
    ensures
        with_bit(with_bit(bits, i, first), i, second) == with_bit(bits, i, second),
{
    if first {
        if second {
            assert((bits | (1u32 << i)) | (1u32 << i) == bits | (1u32 << i)) by (bit_vector);
        } else {
            assert((bits | (1u32 << i)) & !(1u32 << i) == bits & !(1u32 << i)) by (bit_vector);
        }
    } else {
        if second {
            assert((bits & !(1u32 << i)) | (1u32 << i) == bits | (1u32 << i)) by (bit_vector);
        } else {
            assert((bits & !(1u32 << i)) & !(1u32 << i) == bits & !(1u32 << i)) by (bit_vector);
        }
    }
}

} // verus!
