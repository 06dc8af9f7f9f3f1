//! 256-bit unsigned quantities as they appear in block metadata.

use vstd::prelude::*;

verus! {

/// A 256-bit unsigned integer, held as its upper and lower 128 bits.
#[derive(Debug, Clone, Copy, PartialEq, Eq, Structural)]
pub struct Word256 {
    pub hi: u128,
    pub lo: u128,
}

/// 2 to the power 128: the weight of the upper half.
pub open spec fn half_span() -> nat {
    u128::MAX as nat + 1
}

impl View for Word256 {
    type V = nat;

    open spec fn view(&self) -> nat {
        self.hi as nat * half_span() + self.lo as nat
    }
}

/// How the weight of the upper half spreads over a difference of two upper
/// halves.
proof fn upper_half_scales(a: nat, b: nat)
    requires
        a <= b,
    ensures
        (b - a) * half_span() == b * half_span() - a * half_span(),
        a < b ==> a * half_span() + half_span() <= b * half_span(),
        a * half_span() >= 0,
        (a + 1) * half_span() == a * half_span() + half_span(),
{
    assert((a + 1) * half_span() == a * half_span() + half_span()) by (nonlinear_arith);
    assert((b - a) * half_span() == b * half_span() - a * half_span()) by (nonlinear_arith)
        requires
            a <= b,
    ;
    assert(a < b ==> a * half_span() + half_span() <= b * half_span()) by (nonlinear_arith);
    assert(a * half_span() >= 0) by (nonlinear_arith);
}

impl Word256 {
    pub fn from_u64(value: u64) -> (w: Self)
        ensures
            w@ == value,
    {
        Word256 { hi: 0, lo: value as u128 }
    }

    /// The value as a `u64`, where it fits.
    pub fn to_u64(&self) -> (r: Option<u64>)
        ensures
            r == (if self@ <= u64::MAX {
                Some(self@ as u64)
            } else {
                None
            }),
    {
        proof {
            upper_half_scales(0, self.hi as nat);
        }
        if self.hi == 0 && self.lo <= u64::MAX as u128 {
            Some(self.lo as u64)
        } else {
            None
        }
    }

    /// `self - rhs`, where that is not negative.
    pub fn checked_sub(&self, rhs: &Word256) -> (r: Option<Word256>)
        ensures
            r.is_some() <==> self@ >= rhs@,
            r matches Some(d) ==> d@ == self@ - rhs@,
    {
        proof {
            if self.hi <= rhs.hi {
                upper_half_scales(self.hi as nat, rhs.hi as nat);
            } else {
                upper_half_scales(rhs.hi as nat, self.hi as nat);
                upper_half_scales(rhs.hi as nat, (self.hi - 1) as nat);
                upper_half_scales((self.hi - 1) as nat, self.hi as nat);
            }
        }
        if self.hi < rhs.hi {
            None
        } else if self.lo >= rhs.lo {
            Some(Word256 { hi: self.hi - rhs.hi, lo: self.lo - rhs.lo })
        } else if self.hi == rhs.hi {
            None
        } else {
            let gap: u128 = rhs.lo - self.lo;
            Some(Word256 { hi: self.hi - rhs.hi - 1, lo: (u128::MAX - gap) + 1 })
        }
    }
}

} // verus!
