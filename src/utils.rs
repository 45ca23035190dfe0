//! Effective share reserves: the share reserves that the curve sees.
use crate::error::HyperdriveError;
use crate::text::{format_fixed, parse_fixed, parse_signed};
use crate::uint::{
    all_digits, dec_string, dec_value, signed_dec_fits, signed_dec_value, u256_checked_add,
    u256_checked_sub, u256_modulus, Signed256, Uint256,
};
use vstd::prelude::*;

verus! {

/// `share_reserves − share_adjustment`, on integers.
pub open spec fn effective_share_reserves_spec(share_reserves: nat, share_adjustment: int) -> int {
    share_reserves as int - share_adjustment
}

/// The share reserves less the signed adjustment. Fails with
/// `NegativeReserves` where the difference is below zero, and with
/// `Overflow` where it reaches 2^256. A zero adjustment gives the share
/// reserves back unchanged.
pub fn effective_share_reserves(share_reserves: Uint256, share_adjustment: Signed256) -> (r: Result<
    Uint256,
    HyperdriveError,
>)
    requires
        share_adjustment.wf(),
    ensures
        ({
            let e = effective_share_reserves_spec(share_reserves.value(), share_adjustment.value());
            &&& r is Ok <==> 0 <= e < u256_modulus()
            &&& r matches Ok(v) ==> v.value() == e
            &&& r == Err::<Uint256, HyperdriveError>(HyperdriveError::NegativeReserves) <==> e < 0
            &&& r == Err::<Uint256, HyperdriveError>(HyperdriveError::Overflow) <==> e
                >= u256_modulus()
        }),
        share_adjustment.value() == 0 ==> r == Ok::<Uint256, HyperdriveError>(share_reserves),
{
    if share_adjustment.negative {
        match u256_checked_add(share_reserves, share_adjustment.magnitude) {
            Some(v) => Ok(v),
            None => Err(HyperdriveError::Overflow),
        }
    } else if share_adjustment.magnitude.is_zero() {
        Ok(share_reserves)
    } else {
        match u256_checked_sub(share_reserves, share_adjustment.magnitude) {
            Some(v) => Ok(v),
            None => Err(HyperdriveError::NegativeReserves),
        }
    }
}

/// Effective share reserves from share reserves and a signed adjustment
/// given as decimal text, written back as decimal text.
pub fn get_effective_share_reserves(share_reserves: &str, share_adjustment: &str) -> (r: Result<
    String,
    HyperdriveError,
>)
    ensures
        ({
            let z_ok = all_digits(share_reserves@) && dec_value(share_reserves@) < u256_modulus();
            let a_ok = signed_dec_fits(share_adjustment@);
            let e = effective_share_reserves_spec(
                dec_value(share_reserves@),
                signed_dec_value(share_adjustment@),
            );
            &&& r is Ok <==> (z_ok && a_ok && 0 <= e < u256_modulus())
            &&& r matches Ok(s) ==> s@ == dec_string(e as nat)
            &&& r == Err::<String, HyperdriveError>(HyperdriveError::InvalidNumber) <==> !(z_ok
                && a_ok)
            &&& r == Err::<String, HyperdriveError>(HyperdriveError::NegativeReserves) <==> (z_ok
                && a_ok && e < 0)
            &&& r == Err::<String, HyperdriveError>(HyperdriveError::Overflow) <==> (z_ok && a_ok
                && e >= u256_modulus())
        }),
{
    let z = parse_fixed(share_reserves)?;
    let a = parse_signed(share_adjustment)?;
    let e = effective_share_reserves(z, a)?;
    Ok(format_fixed(e))
}

/// With no adjustment, the effective share reserves are the share reserves.
pub proof fn lemma_effective_share_reserves_zero_adjustment(share_reserves: nat)
    ensures
        effective_share_reserves_spec(share_reserves, 0) == share_reserves,
{
}

} // verus!
