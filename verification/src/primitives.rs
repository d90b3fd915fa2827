//! The two value types of the ledger: 20-byte account addresses and unsigned
//! 256-bit integers.
//!
//! Both are plain data. The arithmetic on 256-bit integers and the zero test on
//! addresses are done by `alloy_primitives`, as re-exported by `stylus_sdk`; the
//! functions that make those calls are marked `external_body`, and their
//! contracts are assumed, not proved.

use vstd::prelude::*;

verus! {

/// The weight of the second limb of a [`U256`]: `2^64`.
pub open spec fn limb_base() -> nat {
    0x1_0000_0000_0000_0000nat
}

/// The first value that a [`U256`] cannot hold: `2^256`.
pub open spec fn u256_modulus() -> nat {
    0x1_0000_0000_0000_0000_0000_0000_0000_0000_0000_0000_0000_0000_0000_0000_0000_0000nat
}

/// The number that four little-endian 64-bit limbs stand for.
pub open spec fn limbs_to_nat(limbs: [u64; 4]) -> nat {
    (limbs[0] as nat) + (limbs[1] as nat) * limb_base() + (limbs[2] as nat) * limb_base()
        * limb_base() + (limbs[3] as nat) * limb_base() * limb_base() * limb_base()
}

/// An account address: 20 opaque bytes. The all-zero address is the null account.
#[derive(Clone, Copy, Debug, PartialEq, Eq, Hash)]
pub struct Address {
    pub bytes: [u8; 20],
}

/// An unsigned 256-bit integer, held as four 64-bit limbs, least significant
/// first. Its view is the number it stands for.
#[derive(Clone, Copy, Debug, PartialEq, Eq, Hash)]
pub struct U256 {
    pub limbs: [u64; 4],
}

impl View for U256 {
    type V = nat;

    open spec fn view(&self) -> nat {
        limbs_to_nat(self.limbs)
    }
}

/// Every `U256` is below `2^256`, and two of them with the same value are the
/// same `U256`.
pub proof fn lemma_u256_view(a: U256, b: U256)
    ensures
        a@ < u256_modulus(),
        a@ == b@ <==> a == b,
{
    let base: int = limb_base() as int;
    let (a0, a1, a2, a3): (int, int, int, int) = (
        a.limbs[0] as int,
        a.limbs[1] as int,
        a.limbs[2] as int,
        a.limbs[3] as int,
    );
    let (b0, b1, b2, b3): (int, int, int, int) = (
        b.limbs[0] as int,
        b.limbs[1] as int,
        b.limbs[2] as int,
        b.limbs[3] as int,
    );
    assert(a@ == a0 + base * (a1 + base * (a2 + base * a3))) by (nonlinear_arith)
        requires
            a@ == a0 + a1 * base + a2 * base * base + a3 * base * base * base,
    ;
    assert(b@ == b0 + base * (b1 + base * (b2 + base * b3))) by (nonlinear_arith)
        requires
            b@ == b0 + b1 * base + b2 * base * base + b3 * base * base * base,
    ;
    if a@ == b@ {
        lemma_digits_unique(a0, a1 + base * (a2 + base * a3), b0, b1 + base * (b2 + base * b3));
        lemma_digits_unique(a1, a2 + base * a3, b1, b2 + base * b3);
        lemma_digits_unique(a2, a3, b2, b3);
        assert(a.limbs =~= b.limbs);
    }
}

/// A number below `2^64` plus a multiple of `2^64` determines both parts.
proof fn lemma_digits_unique(lo1: int, hi1: int, lo2: int, hi2: int)
    requires
        0 <= lo1 < limb_base(),
        0 <= lo2 < limb_base(),
        lo1 + limb_base() * hi1 == lo2 + limb_base() * hi2,
    ensures
        lo1 == lo2,
        hi1 == hi2,
{
    let base: int = limb_base() as int;
    assert(base * hi1 - base * hi2 == base * (hi1 - hi2)) by (nonlinear_arith);
    if hi1 > hi2 {
        assert(base * (hi1 - hi2) >= base) by (nonlinear_arith)
            requires
                hi1 - hi2 >= 1,
                base > 0,
        ;
    } else if hi1 < hi2 {
        assert(base * (hi1 - hi2) <= -base) by (nonlinear_arith)
            requires
                hi1 - hi2 <= -1,
                base > 0,
        ;
    }
}

impl Address {
    /// Whether this is the null account, the address of twenty zero bytes.
    pub open spec fn is_null(&self) -> bool {
        forall|i: int| 0 <= i < 20 ==> self.bytes[i] == 0u8
    }

    /// Wraps twenty bytes.
    pub fn new(bytes: [u8; 20]) -> (r: Address)
        ensures
            r.bytes == bytes,
    {
        Address { bytes }
    }

    /// The null account.
    pub fn zero() -> (r: Address)
        ensures
            r.is_null(),
    {
        Address { bytes: [0u8; 20] }
    }

    /// The twenty bytes.
    pub fn into_array(self) -> (r: [u8; 20])
        ensures
            r == self.bytes,
    {
        self.bytes
    }

    /// Whether this is the null account.
    pub fn is_zero(&self) -> (r: bool)
        ensures
            r == self.is_null(),
    {
        fixed_bytes_is_zero(self)
    }

    /// Whether the two are the same address.
    pub fn same_as(&self, other: &Address) -> (r: bool)
        ensures
            r == (*self == *other),
    {
        let mut i: usize = 0;
        while i < 20
            invariant
                i <= 20,
                forall|j: int| 0 <= j < i ==> self.bytes[j] == other.bytes[j],
            decreases 20 - i,
        {
            if self.bytes[i] != other.bytes[i] {
                return false;
            }
            i += 1;
        }
        proof {
            assert(self.bytes =~= other.bytes);
        }
        true
    }
}

impl U256 {
    /// Wraps four limbs, least significant first.
    pub fn from_limbs(limbs: [u64; 4]) -> (r: U256)
        ensures
            r.limbs == limbs,
    {
        U256 { limbs }
    }

    /// The four limbs, least significant first.
    pub fn into_limbs(self) -> (r: [u64; 4])
        ensures
            r == self.limbs,
    {
        self.limbs
    }

    /// The integer `value`.
    pub fn from_u64(value: u64) -> (r: U256)
        ensures
            r@ == value,
    {
        U256 { limbs: [value, 0, 0, 0] }
    }

    /// The integer `value`, as `alloy_primitives` converts it.
    pub fn from_usize(value: usize) -> (r: U256)
        ensures
            r@ == value,
    {
        uint_from_usize(value)
    }

    /// Zero.
    pub fn zero() -> (r: U256)
        ensures
            r@ == 0,
    {
        U256 { limbs: [0, 0, 0, 0] }
    }

    /// The largest value, `2^256 - 1`.
    pub fn max() -> (r: U256)
        ensures
            r@ == u256_modulus() - 1,
    {
        U256 { limbs: [u64::MAX, u64::MAX, u64::MAX, u64::MAX] }
    }

    /// The sum, or `None` where it does not fit in 256 bits.
    pub fn checked_add(self, rhs: U256) -> (r: Option<U256>)
        ensures
            r is Some <==> self@ + rhs@ < u256_modulus(),
            r matches Some(sum) ==> sum@ == self@ + rhs@,
    {
        uint_checked_add(self, rhs)
    }

    /// The difference, or `None` where `rhs` is the larger.
    pub fn checked_sub(self, rhs: U256) -> (r: Option<U256>)
        ensures
            r is Some <==> rhs@ <= self@,
            r matches Some(difference) ==> difference@ == self@ - rhs@,
    {
        uint_checked_sub(self, rhs)
    }

    /// Whether the two are the same number.
    pub fn same_as(&self, other: &U256) -> (r: bool)
        ensures
            r == (*self == *other),
            r == (self@ == other@),
    {
        let same = self.limbs[0] == other.limbs[0] && self.limbs[1] == other.limbs[1]
            && self.limbs[2] == other.limbs[2] && self.limbs[3] == other.limbs[3];
        proof {
            if same {
                assert(self.limbs =~= other.limbs);
            }
            lemma_u256_view(*self, *other);
        }
        same
    }
}

/// Calls `Uint::checked_add` of `ruint`, on the type that `alloy_primitives`
/// names `U256`. Assumed of it: the limbs are read least significant first, the
/// result is `None` exactly when the sum needs more than 256 bits, and otherwise
/// it holds the sum.
#[verifier::external_body]
fn uint_checked_add(a: U256, b: U256) -> (r: Option<U256>)
    ensures
        r is Some <==> a@ + b@ < u256_modulus(),
        r matches Some(sum) ==> sum@ == a@ + b@,
{
    let x = stylus_sdk::alloy_primitives::U256::from_limbs(a.limbs);
    let y = stylus_sdk::alloy_primitives::U256::from_limbs(b.limbs);
    match x.checked_add(y) {
        Some(sum) => Some(U256 { limbs: sum.into_limbs() }),
        None => None,
    }
}

/// Calls `Uint::checked_sub` of `ruint`, on the type that `alloy_primitives`
/// names `U256`. Assumed of it: the limbs are read least significant first, the
/// result is `None` exactly when `b` is larger than `a`, and otherwise it holds
/// the difference.
#[verifier::external_body]
fn uint_checked_sub(a: U256, b: U256) -> (r: Option<U256>)
    ensures
        r is Some <==> b@ <= a@,
        r matches Some(difference) ==> difference@ == a@ - b@,
{
    let x = stylus_sdk::alloy_primitives::U256::from_limbs(a.limbs);
    let y = stylus_sdk::alloy_primitives::U256::from_limbs(b.limbs);
    match x.checked_sub(y) {
        Some(difference) => Some(U256 { limbs: difference.into_limbs() }),
        None => None,
    }
}

/// Calls `Uint::from` of `ruint` on a `usize`. Assumed of it: the result stands
/// for the same number.
#[verifier::external_body]
fn uint_from_usize(value: usize) -> (r: U256)
    ensures
        r@ == value,
{
    U256 { limbs: stylus_sdk::alloy_primitives::U256::from(value).into_limbs() }
}

/// Calls `FixedBytes::is_zero` of `alloy_primitives` on an `Address`. Assumed of
/// it: the result is `true` exactly when all twenty bytes are zero.
#[verifier::external_body]
fn fixed_bytes_is_zero(address: &Address) -> (r: bool)
    ensures
        r == address.is_null(),
{
    stylus_sdk::alloy_primitives::Address::new(address.bytes).is_zero()
}

} // verus!
