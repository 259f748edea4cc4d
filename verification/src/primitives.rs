//! Plain value types shared by the pool and the sync stages.
use vstd::prelude::*;

verus! {

/// A block number.
pub type BlockNumber = u64;

/// A transaction number (its position in the global transaction table).
pub type TxNumber = u64;

/// `2^128`, the weight of the high half of a [`U256`].
pub open spec fn pow2_128() -> nat {
    0x1_0000_0000_0000_0000_0000_0000_0000_0000nat
}

/// `2^256`, one more than the largest value a [`U256`] holds.
pub open spec fn pow2_256() -> nat {
    pow2_128() * pow2_128()
}

/// The sum of two values modulo `2^256`.
pub open spec fn spec_add(a: U256, b: U256) -> U256 {
    choose|r: U256| r.value() == (a.value() + b.value()) % pow2_256()
}

/// A 256-bit unsigned integer, held as two 128-bit halves.
#[derive(Clone, Copy, Debug, PartialEq, Eq, Structural)]
pub struct U256 {
    /// The high 128 bits.
    pub hi: u128,
    /// The low 128 bits.
    pub lo: u128,
}

impl U256 {
    /// The number this value stands for.
    pub open spec fn value(self) -> nat {
        self.hi as nat * pow2_128() + self.lo as nat
    }

    /// Zero.
    pub fn zero() -> (r: U256)
        ensures
            r.value() == 0,
    {
        U256 { hi: 0, lo: 0 }
    }

    /// The largest value, `2^256 - 1`.
    pub fn max_value() -> (r: U256)
        ensures
            r.value() == pow2_256() - 1,
    {
        U256 { hi: u128::MAX, lo: u128::MAX }
    }

    /// Widens a `u128`.
    pub fn from_u128(x: u128) -> (r: U256)
        ensures
            r.value() == x,
    {
        U256 { hi: 0, lo: x }
    }

    /// Widens a `u64`.
    pub fn from_u64(x: u64) -> (r: U256)
        ensures
            r.value() == x,
    {
        U256 { hi: 0, lo: x as u128 }
    }

    /// Two values with the same number are the same value.
    pub proof fn lemma_value_injective(a: U256, b: U256)
        requires
            a.value() == b.value(),
        ensures
            a == b,
    {
        Self::lemma_order(a, b);
    }

    /// Addition modulo `2^256`, as `+` on 256-bit integers wraps.
    pub fn wrapping_add(self, other: U256) -> (r: U256)
        ensures
            r.value() == (self.value() + other.value()) % pow2_256(),
            r == spec_add(self, other),
    {
        let (lo, carry) = if self.lo <= u128::MAX - other.lo {
            (self.lo + other.lo, 0u128)
        } else {
            (self.lo - (u128::MAX - other.lo) - 1, 1u128)
        };
        let hi = if self.hi <= u128::MAX - other.hi {
            let h = self.hi + other.hi;
            if h <= u128::MAX - carry {
                h + carry
            } else {
                0
            }
        } else {
            self.hi - (u128::MAX - other.hi) - 1 + carry
        };
        let r = U256 { hi, lo };
        proof {
            let c = pow2_128();
            let sum = self.value() + other.value();
            assert(sum == (self.hi + other.hi + carry) * c + lo) by (nonlinear_arith)
                requires
                    sum == self.hi as nat * c + self.lo as nat + other.hi as nat * c + other.lo as nat,
                    self.lo + other.lo == lo + carry * c,
            ;
            let hs = self.hi + other.hi + carry;
            if hs < c {
                assert(hi == hs);
                assert(sum < pow2_256()) by (nonlinear_arith)
                    requires sum == hs * c + lo, hs < c, lo < c, pow2_256() == c * c;
                vstd::arithmetic::div_mod::lemma_small_mod(sum, pow2_256());
            } else {
                assert(hi == hs - c);
                assert(sum == pow2_256() + (hi * c + lo)) by (nonlinear_arith)
                    requires sum == hs * c + lo, hi == hs - c, pow2_256() == c * c;
                assert(hi * c + lo < pow2_256()) by (nonlinear_arith)
                    requires hi < c, lo < c, pow2_256() == c * c, hi >= 0, lo >= 0;
                vstd::arithmetic::div_mod::lemma_mod_add_multiples_vanish((hi * c + lo) as int, pow2_256() as int);
                vstd::arithmetic::div_mod::lemma_small_mod((hi * c + lo) as nat, pow2_256());
            }
            assert(r.value() == (self.value() + other.value()) % pow2_256());
            let w = spec_add(self, other);
            assert(w.value() == (self.value() + other.value()) % pow2_256());
            Self::lemma_value_injective(w, r);
        }
        r
    }

    /// Whether `self > other` as numbers.
    pub fn gt(&self, other: &U256) -> (r: bool)
        ensures
            r == (self.value() > other.value()),
    {
        proof { Self::lemma_order(*self, *other); }
        self.hi > other.hi || (self.hi == other.hi && self.lo > other.lo)
    }

    /// Whether `self < other` as numbers.
    pub fn lt(&self, other: &U256) -> (r: bool)
        ensures
            r == (self.value() < other.value()),
    {
        other.gt(self)
    }

    /// Numeric order follows the lexicographic order of the halves.
    proof fn lemma_order(a: U256, b: U256)
        ensures
            a.value() > b.value() <==> (a.hi > b.hi || (a.hi == b.hi && a.lo > b.lo)),
            a.value() == b.value() <==> (a.hi == b.hi && a.lo == b.lo),
    {
        let c = pow2_128();
        if a.hi > b.hi {
            assert(a.value() > b.value()) by (nonlinear_arith)
                requires a.hi > b.hi, b.lo < c, a.value() == a.hi * c + a.lo, b.value() == b.hi * c + b.lo, c > 0;
        } else if a.hi < b.hi {
            assert(a.value() < b.value()) by (nonlinear_arith)
                requires a.hi < b.hi, a.lo < c, a.value() == a.hi * c + a.lo, b.value() == b.hi * c + b.lo, c > 0;
        }
    }
}

/// A 32-byte hash, held as two 128-bit halves.
#[derive(Clone, Copy, Debug, PartialEq, Eq, Structural)]
pub struct H256(pub u128, pub u128);

/// The hash of a transaction.
pub type TxHash = H256;

/// A 20-byte account address: the high 16 bytes and the low 4 bytes.
#[derive(Clone, Copy, Debug, PartialEq, Eq, Structural)]
pub struct Address(pub u128, pub u32);

impl H256 {
    /// The all-zero hash.
    pub fn zero() -> (r: H256)
        ensures
            r == H256(0, 0),
    {
        H256(0, 0)
    }

    /// Whether every byte is zero.
    pub fn is_zero(&self) -> (r: bool)
        ensures
            r == (self.0 == 0 && self.1 == 0),
    {
        self.0 == 0 && self.1 == 0
    }
}


/// A block header with its hash, as far as the stages read it.
#[derive(Clone, Copy, Debug, PartialEq, Eq, Structural)]
pub struct SealedHeader {
    /// The block number.
    pub number: BlockNumber,
    /// The hash of the header.
    pub hash: H256,
    /// The hash of the parent block's header.
    pub parent_hash: H256,
    /// The state root the block commits to.
    pub state_root: H256,
    /// The difficulty of the block.
    pub difficulty: U256,
}

} // verus!
