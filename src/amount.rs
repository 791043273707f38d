use vstd::prelude::*;

verus! {

/// 2^128, the weight of the high limb.
pub open spec fn limb_base() -> nat {
    0x1_0000_0000_0000_0000_0000_0000_0000_0000nat
}

/// 2^256: every amount lies below it.
pub open spec fn amount_bound() -> nat {
    limb_base() * limb_base()
}

/// The amount nothing: what an untouched slot reads as.
pub open spec fn zero_amount() -> U256 {
    U256 { hi: 0, lo: 0 }
}

/// An unsigned 256-bit token quantity, held as a high and a low 128-bit limb.
#[derive(Clone, Copy, Debug, PartialEq, Eq, Structural)]
pub struct U256 {
    pub hi: u128,
    pub lo: u128,
}

impl U256 {
    /// The number this amount stands for.
    pub open spec fn value(self) -> nat {
        self.hi as nat * limb_base() + self.lo as nat
    }

    pub fn zero() -> (r: U256)
        ensures
            r == zero_amount(),
            r.value() == 0,
    {
        U256 { hi: 0, lo: 0 }
    }

    pub fn from_u128(v: u128) -> (r: U256)
        ensures
            r.value() == v,
    {
        U256 { hi: 0, lo: v }
    }

    /// Builds an amount from its limbs, high first.
    pub fn from_limbs(hi: u128, lo: u128) -> (r: U256)
        ensures
            r.hi == hi,
            r.lo == lo,
            r.value() == hi as nat * limb_base() + lo as nat,
    {
        U256 { hi, lo }
    }

    /// `self + other`, or `None` where the sum does not fit in 256 bits.
    pub fn checked_add(self, other: U256) -> (r: Option<U256>)
        ensures
            r is Some <==> self.value() + other.value() < amount_bound(),
            r is Some ==> r->0.value() == self.value() + other.value(),
    {
        proof {
            lemma_value_bounds(self);
            lemma_value_bounds(other);
        }
        let carry: u128;
        let lo: u128;
        if self.lo <= u128::MAX - other.lo {
            lo = self.lo + other.lo;
            carry = 0;
        } else {
            lo = self.lo - (u128::MAX - other.lo) - 1;
            carry = 1;
        }
        assert(lo as nat + carry as nat * limb_base() == self.lo as nat + other.lo as nat);
        if self.hi > u128::MAX - other.hi || self.hi + other.hi > u128::MAX - carry {
            assert(self.hi as nat + other.hi as nat + carry as nat >= limb_base());
            assert(self.value() + other.value() >= amount_bound()) by (nonlinear_arith)
                requires
                    self.value() == self.hi as nat * limb_base() + self.lo as nat,
                    other.value() == other.hi as nat * limb_base() + other.lo as nat,
                    lo as nat + carry as nat * limb_base() == self.lo as nat + other.lo as nat,
                    self.hi as nat + other.hi as nat + carry as nat >= limb_base(),
                    amount_bound() == limb_base() * limb_base(),
                    lo >= 0,
            ;
            None
        } else {
            let hi: u128 = self.hi + other.hi + carry;
            let s = U256 { hi, lo };
            assert(s.value() == self.value() + other.value()) by (nonlinear_arith)
                requires
                    s.value() == hi as nat * limb_base() + lo as nat,
                    self.value() == self.hi as nat * limb_base() + self.lo as nat,
                    other.value() == other.hi as nat * limb_base() + other.lo as nat,
                    lo as nat + carry as nat * limb_base() == self.lo as nat + other.lo as nat,
                    hi == self.hi + other.hi + carry,
            ;
            proof {
                lemma_value_bounds(s);
            }
            Some(s)
        }
    }

    /// `self - other`, or `None` where `other` is the larger.
    pub fn checked_sub(self, other: U256) -> (r: Option<U256>)
        ensures
            r is Some <==> other.value() <= self.value(),
            r is Some ==> r->0.value() == self.value() - other.value(),
    {
        proof {
            lemma_value_bounds(self);
            lemma_value_bounds(other);
        }
        let borrow: u128;
        let lo: u128;
        if self.lo >= other.lo {
            lo = self.lo - other.lo;
            borrow = 0;
        } else {
            lo = u128::MAX - (other.lo - self.lo) + 1;
            borrow = 1;
        }
        assert(lo as nat == self.lo as nat + borrow as nat * limb_base() - other.lo as nat);
        if self.hi < other.hi || self.hi - other.hi < borrow {
            assert(self.hi as int - other.hi as int - borrow as int <= -1);
            assert(other.value() > self.value()) by (nonlinear_arith)
                requires
                    self.value() == self.hi as nat * limb_base() + self.lo as nat,
                    other.value() == other.hi as nat * limb_base() + other.lo as nat,
                    lo as nat == self.lo as nat + borrow as nat * limb_base() - other.lo as nat,
                    self.hi as int - other.hi as int - borrow as int <= -1,
                    lo < limb_base(),
            ;
            None
        } else {
            let hi: u128 = self.hi - other.hi - borrow;
            let d = U256 { hi, lo };
            assert(d.value() == self.value() - other.value()) by (nonlinear_arith)
                requires
                    d.value() == hi as nat * limb_base() + lo as nat,
                    self.value() == self.hi as nat * limb_base() + self.lo as nat,
                    other.value() == other.hi as nat * limb_base() + other.lo as nat,
                    lo as nat == self.lo as nat + borrow as nat * limb_base() - other.lo as nat,
                    hi == self.hi - other.hi - borrow,
            ;
            Some(d)
        }
    }
}

/// Every amount lies in `[0, 2^256)`.
pub proof fn lemma_value_bounds(a: U256)
    ensures
        a.value() < amount_bound(),
        a.lo < limb_base(),
        a.hi < limb_base(),
{
    assert((a.hi as nat) * limb_base() + (a.lo as nat) < limb_base() * limb_base()) by (nonlinear_arith)
        requires
            a.hi < limb_base(),
            a.lo < limb_base(),
    ;
}

} // verus!
