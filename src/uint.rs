//! Unsigned 256-bit integers held as four little-endian 64-bit limbs; the
//! arithmetic is done by alloy's `U256`.

use alloy::primitives::U256;
use vstd::prelude::*;

verus! {

/// The number of distinct values of one 64-bit limb.
pub open spec fn limb_base() -> nat {
    0x1_0000_0000_0000_0000
}

/// One more than the largest value a `Uint256` can hold.
pub open spec fn uint_bound() -> nat {
    limb_base() * limb_base() * limb_base() * limb_base()
}

/// The number that four little-endian limbs stand for.
pub open spec fn limbs_value(l: Seq<u64>) -> nat {
    (l[0] as nat) + (l[1] as nat) * limb_base() + (l[2] as nat) * limb_base() * limb_base()
        + (l[3] as nat) * limb_base() * limb_base() * limb_base()
}

/// An unsigned 256-bit integer.
#[derive(Clone, Copy, Debug)]
pub struct Uint256 {
    pub limbs: [u64; 4],
}

impl Uint256 {
    pub open spec fn value(&self) -> nat {
        limbs_value(self.limbs@)
    }
}

/// Relies on `U256::from` for a `u64`: the same number.
#[verifier::external_body]
pub(crate) fn uint_from_u64(x: u64) -> (r: Uint256)
    ensures
        r.value() == x,
{
    Uint256 { limbs: U256::from(x).into_limbs() }
}

/// Relies on `U256::is_zero`: true exactly for zero.
#[verifier::external_body]
pub(crate) fn uint_is_zero(a: &Uint256) -> (r: bool)
    ensures
        r == (a.value() == 0),
{
    U256::from_limbs(a.limbs).is_zero()
}

/// Relies on `U256::checked_mul`: the product, or `None` when it does not fit.
#[verifier::external_body]
pub(crate) fn uint_checked_mul(a: Uint256, b: Uint256) -> (r: Option<Uint256>)
    ensures
        r is Some <==> a.value() * b.value() < uint_bound(),
        r matches Some(p) ==> p.value() == a.value() * b.value(),
{
    U256::from_limbs(a.limbs).checked_mul(U256::from_limbs(b.limbs)).map(|p| Uint256 { limbs: p.into_limbs() })
}

/// Relies on `U256::checked_div`: the floor quotient, or `None` for a zero divisor.
#[verifier::external_body]
pub(crate) fn uint_checked_div(a: Uint256, b: Uint256) -> (r: Option<Uint256>)
    ensures
        r is Some <==> b.value() != 0,
        r matches Some(q) ==> q.value() == a.value() / b.value(),
{
    U256::from_limbs(a.limbs).checked_div(U256::from_limbs(b.limbs)).map(|q| Uint256 { limbs: q.into_limbs() })
}

/// Relies on `U256::checked_sub`: the difference, or `None` when it would be negative.
#[verifier::external_body]
pub(crate) fn uint_checked_sub(a: Uint256, b: Uint256) -> (r: Option<Uint256>)
    ensures
        r is Some <==> a.value() >= b.value(),
        r matches Some(d) ==> d.value() == a.value() - b.value(),
{
    U256::from_limbs(a.limbs).checked_sub(U256::from_limbs(b.limbs)).map(|d| Uint256 { limbs: d.into_limbs() })
}

/// Relies on `U256::checked_pow`: the power, or `None` when it does not fit.
#[verifier::external_body]
pub(crate) fn uint_checked_pow(a: Uint256, e: u64) -> (r: Option<Uint256>)
    ensures
        r is Some <==> vstd::arithmetic::power::pow(a.value() as int, e as nat) < uint_bound(),
        r matches Some(p) ==> p.value() == vstd::arithmetic::power::pow(a.value() as int, e as nat),
{
    U256::from_limbs(a.limbs).checked_pow(U256::from(e)).map(|p| Uint256 { limbs: p.into_limbs() })
}

} // verus!
