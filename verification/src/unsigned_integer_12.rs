//! The machine's word: an unsigned integer of twelve bits.
//!
//! Every register and every memory cell holds one. Arithmetic on words wraps
//! at 4096 without any sign extension, as the registers of the machine do.

use std::ops::Add;
use std::ops::AddAssign;
use std::ops::BitAnd;
use std::ops::Mul;
use std::ops::Shr;
use vstd::arithmetic::power2::lemma2_to64;
use vstd::arithmetic::power2::lemma_pow2_strictly_increases;
use vstd::arithmetic::power2::pow2;
use vstd::bits::lemma_u16_shr_is_div;
use vstd::prelude::*;
use vstd::std_specs::convert::FromSpec;
use vstd::std_specs::convert::FromSpecImpl;
use vstd::std_specs::ops::AddSpecImpl;
use vstd::std_specs::ops::BitAndSpecImpl;
use vstd::std_specs::ops::MulSpecImpl;
use vstd::std_specs::ops::ShrSpecImpl;

verus! {

/// The twelve low bits of a wider integer.
pub const MASK: u16 = 0b0000_1111_1111_1111;

/// The residue of `n` modulo 4096: the number that a word holds after an
/// operation whose exact result is `n`.
pub open spec fn wrap12(n: int) -> int {
    n % 4096
}

/// A twelve-bit word. Its view is the number that it holds, from 0 to 4095.
#[allow(non_camel_case_types)]
#[derive(Copy, Clone, Debug, PartialEq, Eq, Structural, PartialOrd, Ord, Hash)]
pub struct u12 {
    value: u16,
}

impl View for u12 {
    type V = int;

    closed spec fn view(&self) -> int {
        (self.value & MASK) as int
    }
}

impl u12 {
    #[verifier::type_invariant]
    spec fn in_range(self) -> bool {
        self.value <= MASK
    }

    /// The word that holds `n` modulo 4096.
    pub closed spec fn of(n: int) -> u12 {
        u12 { value: (n % 4096) as u16 }
    }

    /// The bits of the word, as the sixteen-bit integer of the same value.
    pub open spec fn bits(self) -> u16 {
        self@ as u16
    }
}

/// A word never holds more than twelve bits.
pub broadcast proof fn lemma_word_bound(word: u12)
    ensures
        0 <= #[trigger] word@ < 4096,
{
    let raw: u16 = word.value;
    assert(raw & MASK < 4096) by (bit_vector);
}

/// The word made for `n` holds the residue of `n` modulo 4096.
pub broadcast proof fn lemma_of_view(n: int)
    ensures
        #[trigger] u12::of(n)@ == wrap12(n),
{
    let raw: u16 = (n % 4096) as u16;
    assert(raw & MASK == raw) by (bit_vector)
        requires
            raw < 4096,
    ;
}

/// Masking to twelve bits is the residue modulo 4096.
pub proof fn lemma_mask_is_residue(item: u16)
    ensures
        item & MASK == item % 4096,
        item & MASK < 4096,
{
    assert(item & MASK == item % 4096 && item & MASK < 4096) by (bit_vector);
}

/// Making a word from a sixteen-bit integer keeps its twelve low bits and
/// nothing else: the integer and its masked value give the same word, and the
/// word converts back to the masked value.
pub proof fn lemma_from_masks(item: u16)
    ensures
        <u12 as FromSpec<u16>>::from_spec(item) == <u12 as FromSpec<u16>>::from_spec(item & MASK),
        <u12 as FromSpec<u16>>::from_spec(item)@ == item & MASK,
        <u16 as FromSpec<u12>>::from_spec(<u12 as FromSpec<u16>>::from_spec(item)) == item & MASK,
{
    lemma_mask_is_residue(item);
    lemma_mask_is_residue(item & MASK);
    lemma_of_view(item as int);
}

proof fn lemma_raw(word: u12)
    requires
        word.in_range(),
    ensures
        word@ == word.value,
{
    let raw: u16 = word.value;
    assert(raw & MASK == raw) by (bit_vector)
        requires
            raw <= MASK,
    ;
}

impl From<u16> for u12 {
    /// Keeps the twelve low bits of `item`.
    fn from(item: u16) -> (word: u12)
        ensures
            word@ == item & MASK,
            word@ == item % 4096,
    {
        let value: u16 = item & MASK;
        proof {
            lemma_mask_is_residue(item);
            lemma_mask_is_residue(value);
        }
        u12 { value }
    }
}

impl FromSpecImpl<u16> for u12 {
    open spec fn obeys_from_spec() -> bool {
        true
    }

    open spec fn from_spec(item: u16) -> u12 {
        u12::of(item as int)
    }
}

impl From<usize> for u12 {
    /// Keeps the twelve low bits of `item`.
    fn from(item: usize) -> (word: u12)
        ensures
            word@ == item % 4096,
    {
        let value: u16 = (item % 4096) as u16;
        proof {
            lemma_mask_is_residue(value);
        }
        u12 { value }
    }
}

impl FromSpecImpl<usize> for u12 {
    open spec fn obeys_from_spec() -> bool {
        true
    }

    open spec fn from_spec(item: usize) -> u12 {
        u12::of(item as int)
    }
}

impl From<&u8> for u12 {
    /// A byte fits in a word as it is.
    fn from(item: &u8) -> (word: u12)
        ensures
            word@ == *item,
    {
        let value: u16 = *item as u16;
        proof {
            lemma_mask_is_residue(value);
        }
        u12 { value }
    }
}

impl FromSpecImpl<&u8> for u12 {
    open spec fn obeys_from_spec() -> bool {
        true
    }

    open spec fn from_spec(item: &u8) -> u12 {
        u12::of(*item as int)
    }
}

impl From<u12> for u16 {
    /// The number that the word holds.
    fn from(item: u12) -> (number: u16)
        ensures
            number == item@,
    {
        proof {
            use_type_invariant(&item);
            lemma_raw(item);
        }
        item.value
    }
}

impl FromSpecImpl<u12> for u16 {
    open spec fn obeys_from_spec() -> bool {
        true
    }

    open spec fn from_spec(item: u12) -> u16 {
        item.bits()
    }
}

impl From<u12> for usize {
    /// The number that the word holds, as an index.
    fn from(item: u12) -> (number: usize)
        ensures
            number == item@,
    {
        proof {
            use_type_invariant(&item);
            lemma_raw(item);
        }
        item.value as usize
    }
}

impl FromSpecImpl<u12> for usize {
    open spec fn obeys_from_spec() -> bool {
        true
    }

    open spec fn from_spec(item: u12) -> usize {
        item@ as usize
    }
}

impl Add for u12 {
    type Output = u12;

    /// Addition that wraps at 4096.
    fn add(self, rhs: u12) -> (sum: u12)
        ensures
            sum@ == wrap12(self@ + rhs@),
    {
        proof {
            use_type_invariant(&self);
            use_type_invariant(&rhs);
            lemma_raw(self);
            lemma_raw(rhs);
        }
        let total: u16 = self.value + rhs.value;
        let value: u16 = total & MASK;
        proof {
            lemma_mask_is_residue(total);
            lemma_mask_is_residue(value);
        }
        u12 { value }
    }
}

impl AddSpecImpl for u12 {
    open spec fn obeys_add_spec() -> bool {
        true
    }

    open spec fn add_req(self, rhs: u12) -> bool {
        true
    }

    open spec fn add_spec(self, rhs: u12) -> u12 {
        u12::of(self@ + rhs@)
    }
}

impl Mul for u12 {
    type Output = u12;

    /// Multiplication that wraps at 4096.
    fn mul(self, rhs: u12) -> (product: u12)
        ensures
            product@ == wrap12(self@ * rhs@),
    {
        proof {
            use_type_invariant(&self);
            use_type_invariant(&rhs);
            lemma_raw(self);
            lemma_raw(rhs);
            assert(self.value * rhs.value <= 4095 * 4095) by (nonlinear_arith)
                requires
                    self.value <= 4095,
                    rhs.value <= 4095,
            ;
        }
        let total: u32 = (self.value as u32) * (rhs.value as u32);
        let value: u16 = (total % 4096) as u16;
        proof {
            lemma_mask_is_residue(value);
        }
        u12 { value }
    }
}

impl MulSpecImpl for u12 {
    open spec fn obeys_mul_spec() -> bool {
        true
    }

    open spec fn mul_req(self, rhs: u12) -> bool {
        true
    }

    open spec fn mul_spec(self, rhs: u12) -> u12 {
        u12::of(self@ * rhs@)
    }
}

impl BitAnd for u12 {
    type Output = u12;

    /// The bits that both words have set.
    fn bitand(self, rhs: u12) -> (common: u12)
        ensures
            common@ == self.bits() & rhs.bits(),
    {
        proof {
            use_type_invariant(&self);
            use_type_invariant(&rhs);
            lemma_raw(self);
            lemma_raw(rhs);
        }
        let a: u16 = self.value;
        let b: u16 = rhs.value;
        let value: u16 = a & b;
        assert(value <= MASK && value & MASK == value) by (bit_vector)
            requires
                value == a & b,
                a <= MASK,
        ;
        u12 { value }
    }
}

impl BitAndSpecImpl for u12 {
    open spec fn obeys_bitand_spec() -> bool {
        true
    }

    open spec fn bitand_req(self, rhs: u12) -> bool {
        true
    }

    open spec fn bitand_spec(self, rhs: u12) -> u12 {
        u12::of((self.bits() & rhs.bits()) as int)
    }
}

impl Shr for u12 {
    type Output = u12;

    /// Shifts the word right by `rhs` places: the quotient by that power of
    /// two. A shift by twelve places or more leaves zero.
    fn shr(self, rhs: u12) -> (shifted: u12)
        ensures
            shifted@ == self@ / (pow2(rhs@ as nat) as int),
    {
        proof {
            use_type_invariant(&self);
            use_type_invariant(&rhs);
            lemma_raw(self);
            lemma_raw(rhs);
            lemma2_to64();
        }
        if rhs.value >= 12 {
            proof {
                if rhs.value > 12 {
                    lemma_pow2_strictly_increases(12, rhs.value as nat);
                }
                assert(self.value as int / (pow2(rhs.value as nat) as int) == 0) by (nonlinear_arith)
                    requires
                        0 <= self.value < 4096,
                        pow2(rhs.value as nat) >= 4096,
                ;
                lemma_mask_is_residue(0);
            }
            u12 { value: 0 }
        } else {
            let a: u16 = self.value;
            let k: u16 = rhs.value;
            let value: u16 = a >> k;
            proof {
                lemma_u16_shr_is_div(a, k);
                assert(value <= a) by (bit_vector)
                    requires
                        value == a >> k,
                ;
                lemma_mask_is_residue(value);
            }
            u12 { value }
        }
    }
}

impl ShrSpecImpl for u12 {
    open spec fn obeys_shr_spec() -> bool {
        true
    }

    open spec fn shr_req(self, rhs: u12) -> bool {
        true
    }

    open spec fn shr_spec(self, rhs: u12) -> u12 {
        u12::of(self@ / (pow2(rhs@ as nat) as int))
    }
}

impl AddAssign for u12 {
    /// Adds `rhs` in place, wrapping at 4096.
    fn add_assign(&mut self, rhs: u12)
        ensures
            final(self)@ == wrap12(old(self)@ + rhs@),
    {
        *self = *self + rhs;
    }
}

impl From<i32> for u12 {
    /// Keeps the twelve low bits of `item`, in two's complement where it is
    /// negative.
    fn from(item: i32) -> (word: u12)
        ensures
            word@ == wrap12(item as int),
    {
        let low: i32 = item & 0xFFF;
        assert(0 <= low < 4096 && low == item % 4096) by (bit_vector)
            requires
                low == item & 0xFFF,
        ;
        let value: u16 = low as u16;
        proof {
            lemma_mask_is_residue(value);
        }
        u12 { value }
    }
}

impl FromSpecImpl<i32> for u12 {
    open spec fn obeys_from_spec() -> bool {
        true
    }

    open spec fn from_spec(item: i32) -> u12 {
        u12::of(item as int)
    }
}

} // verus!
