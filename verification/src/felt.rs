//! Field elements of the Stark prime field, held as four 64-bit digits.

use vstd::prelude::*;

verus! {

/// The most significant digit of the field prime.
pub const PRIME_TOP_DIGIT: u64 = 0x0800_0000_0000_0011;

/// The field prime, `2^251 + 17 * 2^192 + 1`.
pub open spec fn prime() -> nat {
    0x800000000000011000000000000000000000000000000000000000000000001nat
}

/// The number that four digits stand for, least significant digit first.
pub open spec fn digits_value(d0: u64, d1: u64, d2: u64, d3: u64) -> nat {
    (d0 as nat) + (d1 as nat) * 0x1_0000_0000_0000_0000nat + (d2 as nat)
        * 0x1_0000_0000_0000_0000_0000_0000_0000_0000nat + (d3 as nat)
        * 0x1_0000_0000_0000_0000_0000_0000_0000_0000_0000_0000_0000_0000nat
}

/// Byte `k` of a digit, counted from the most significant byte.
pub open spec fn digit_byte(d: u64, k: int) -> u8 {
    (d >> ((56 - 8 * k) as u64)) as u8
}

/// The eight bytes of a digit, most significant first.
pub fn digit_bytes(d: u64) -> (r: [u8; 8])
    ensures
        forall|k: int| 0 <= k < 8 ==> r@[k] == digit_byte(d, k),
{
    [
        #[verifier::truncate]
        ((d >> 56u64) as u8),
        #[verifier::truncate]
        ((d >> 48u64) as u8),
        #[verifier::truncate]
        ((d >> 40u64) as u8),
        #[verifier::truncate]
        ((d >> 32u64) as u8),
        #[verifier::truncate]
        ((d >> 24u64) as u8),
        #[verifier::truncate]
        ((d >> 16u64) as u8),
        #[verifier::truncate]
        ((d >> 8u64) as u8),
        #[verifier::truncate]
        ((d >> 0u64) as u8),
    ]
}

/// A field element: four base-2^64 digits, least significant first.
///
/// Two elements are equal exactly when their digits are equal, so every
/// number below the prime has one representation, the canonical one.
#[derive(Clone, Copy, Debug, PartialEq, Eq, Structural, Hash)]
pub struct Felt {
    pub(crate) d0: u64,
    pub(crate) d1: u64,
    pub(crate) d2: u64,
    pub(crate) d3: u64,
}

impl Felt {
    /// The digits, least significant first.
    pub closed spec fn spec_digits(&self) -> (u64, u64, u64, u64) {
        (self.d0, self.d1, self.d2, self.d3)
    }

    /// The number this element stands for.
    pub open spec fn value(&self) -> nat {
        digits_value(
            self.spec_digits().0,
            self.spec_digits().1,
            self.spec_digits().2,
            self.spec_digits().3,
        )
    }

    /// The element is canonical: its value lies below the prime.
    pub open spec fn wf(&self) -> bool {
        self.value() < prime()
    }

    /// Every element that executable code holds is canonical.
    #[verifier::type_invariant]
    pub open spec fn canonical(&self) -> bool {
        self.wf()
    }

    /// The 32 bytes of the element, most significant first: the bytes of
    /// the most significant digit, then those of the next, and so on.
    pub open spec fn spec_bytes_be(&self) -> Seq<u8> {
        Seq::new(
            32,
            |i: int|
                if i < 8 {
                    digit_byte(self.spec_digits().3, i)
                } else if i < 16 {
                    digit_byte(self.spec_digits().2, i - 8)
                } else if i < 24 {
                    digit_byte(self.spec_digits().1, i - 16)
                } else {
                    digit_byte(self.spec_digits().0, i - 24)
                },
        )
    }

    /// The 32 bytes of the element, most significant first.
    pub fn to_bytes_be(&self) -> (r: [u8; 32])
        ensures
            r@ == self.spec_bytes_be(),
    {
        let a = digit_bytes(self.d3);
        let b = digit_bytes(self.d2);
        let c = digit_bytes(self.d1);
        let d = digit_bytes(self.d0);
        let r = [
            a[0], a[1], a[2], a[3], a[4], a[5], a[6], a[7],
            b[0], b[1], b[2], b[3], b[4], b[5], b[6], b[7],
            c[0], c[1], c[2], c[3], c[4], c[5], c[6], c[7],
            d[0], d[1], d[2], d[3], d[4], d[5], d[6], d[7],
        ];
        proof {
            assert(r@ =~= self.spec_bytes_be());
        }
        r
    }

    /// The digits, least significant first.
    pub fn digits(&self) -> (r: (u64, u64, u64, u64))
        ensures
            r == self.spec_digits(),
    {
        (self.d0, self.d1, self.d2, self.d3)
    }

    /// Builds an element from its digits; `None` when they reach the prime.
    pub fn from_digits(d0: u64, d1: u64, d2: u64, d3: u64) -> (r: Option<Felt>)
        ensures
            r is Some <==> digits_value(d0, d1, d2, d3) < prime(),
            r is Some ==> r.unwrap().spec_digits() == (d0, d1, d2, d3),
    {
        if d3 < PRIME_TOP_DIGIT || (d3 == PRIME_TOP_DIGIT && d2 == 0 && d1 == 0 && d0 == 0) {
            Some(Felt { d0, d1, d2, d3 })
        } else {
            None
        }
    }

    /// The element that stands for `n`, for `n` below `2^64`.
    pub closed spec fn from_nat(n: nat) -> Felt {
        Felt { d0: n as u64, d1: 0, d2: 0, d3: 0 }
    }

    /// `from_nat` gives the element that stands for `n`.
    pub proof fn lemma_from_nat(n: nat)
        requires
            n <= u64::MAX,
        ensures
            Self::from_nat(n).value() == n,
    {
    }

    /// The element that stands for `x`.
    pub fn from_u64(x: u64) -> (r: Felt)
        ensures
            r.value() == x,
            r == Self::from_nat(x as nat),
    {
        Felt { d0: x, d1: 0, d2: 0, d3: 0 }
    }

    /// The element that stands for `x`.
    pub fn from_usize(x: usize) -> (r: Felt)
        ensures
            r.value() == x,
            r == Self::from_nat(x as nat),
    {
        Felt { d0: x as u64, d1: 0, d2: 0, d3: 0 }
    }

    /// The value as a `u64`, when it fits.
    pub fn to_u64(&self) -> (r: Option<u64>)
        ensures
            r == (if self.value() <= u64::MAX {
                Some(self.value() as u64)
            } else {
                None
            }),
    {
        if self.d1 == 0 && self.d2 == 0 && self.d3 == 0 {
            Some(self.d0)
        } else {
            None
        }
    }

    /// The value as a `usize`, when it fits.
    pub fn to_usize(&self) -> (r: Option<usize>)
        ensures
            r == (if self.value() <= usize::MAX {
                Some(self.value() as usize)
            } else {
                None
            }),
    {
        if self.d1 == 0 && self.d2 == 0 && self.d3 == 0 && self.d0 <= usize::MAX as u64 {
            Some(self.d0 as usize)
        } else {
            None
        }
    }
}

/// Elements that stand for the same number are the same element.
pub proof fn lemma_value_injective(a: Felt, b: Felt)
    requires
        a.value() == b.value(),
    ensures
        a == b,
{
}

} // verus!
