//! Reading fixed-point values from base-10 text of their raw scaled integer,
//! and writing them back.
use crate::error::HyperdriveError;
use crate::uint::{
    all_digits, dec_string, dec_value, i256_from_dec_str, lemma_dec_round_trip, lemma_value_bound,
    signed_dec_fits, signed_dec_string, signed_dec_value, u256_from_dec_str, u256_modulus,
    u256_to_dec_string, Signed256, Uint256,
};
use vstd::prelude::*;
use vstd::string::StringExecFns;

verus! {

/// Reads an unsigned 256-bit value from its decimal digits.
pub fn parse_fixed(s: &str) -> (r: Result<Uint256, HyperdriveError>)
    ensures
        r is Ok <==> (all_digits(s@) && dec_value(s@) < u256_modulus()),
        r matches Ok(v) ==> v.value() == dec_value(s@),
        r matches Err(e) ==> e == HyperdriveError::InvalidNumber,
{
    match u256_from_dec_str(s) {
        Some(v) => Ok(v),
        None => Err(HyperdriveError::InvalidNumber),
    }
}

/// Reads a signed 256-bit value from decimal digits after an optional `+` or `-`.
pub fn parse_signed(s: &str) -> (r: Result<Signed256, HyperdriveError>)
    ensures
        r is Ok <==> signed_dec_fits(s@),
        r matches Ok(v) ==> v.wf() && v.value() == signed_dec_value(s@),
        r matches Err(e) ==> e == HyperdriveError::InvalidNumber,
{
    match i256_from_dec_str(s) {
        Some(v) => Ok(v),
        None => Err(HyperdriveError::InvalidNumber),
    }
}

/// Writes an unsigned value as decimal digits.
pub fn format_fixed(x: Uint256) -> (r: String)
    ensures
        r@ == dec_string(x.value()),
{
    u256_to_dec_string(x)
}

/// Writes a signed value as decimal digits, after a `-` where it is negative.
pub fn format_signed(x: Signed256) -> (r: String)
    requires
        x.wf(),
    ensures
        r@ == signed_dec_string(x.value()),
{
    let digits = u256_to_dec_string(x.magnitude);
    if x.negative {
        let sign = String::from_str("-");
        proof {
            reveal_strlit("-");
        }
        let r = sign.concat(digits.as_str());
        assert(r@ == seq!['-'] + dec_string(x.magnitude.value()));
        r
    } else {
        digits
    }
}

/// What `format_fixed` writes, `parse_fixed` reads back as the same value.
pub proof fn lemma_format_parse_round_trip(x: Uint256)
    ensures
        all_digits(dec_string(x.value())),
        dec_value(dec_string(x.value())) == x.value(),
        dec_value(dec_string(x.value())) < u256_modulus(),
{
    lemma_dec_round_trip(x.value());
    lemma_value_bound(x);
}

} // verus!
