//! A pool's configuration and a snapshot of its reserves, and the queries
//! that are closed-form functions of the two.
use crate::error::HyperdriveError;
use crate::text::{format_fixed, format_signed, parse_fixed};
use crate::uint::{
    all_digits, dec_string, dec_value, fixed_mul_down, lemma_dec_round_trip, fixed_one, signed_dec_string,
    u256_checked_add, u256_checked_mul, u256_checked_sub, u256_modulus, u256_rem, Signed256,
    Uint256,
};
use vstd::arithmetic::div_mod::{
    lemma_fundamental_div_mod, lemma_mod_multiples_basic, lemma_mod_pos_bound, lemma_small_mod,
};
use vstd::arithmetic::mul::lemma_mul_is_commutative;
use vstd::prelude::*;

verus! {

/// The fixed parameters of a pool, set when it is created.
#[derive(Clone, Copy, Debug, PartialEq, Eq, Structural)]
pub struct PoolConfig {
    pub initial_share_price: Uint256,
    pub minimum_share_reserves: Uint256,
    pub position_duration: Uint256,
    pub checkpoint_duration: Uint256,
    pub time_stretch: Uint256,
    pub curve_fee: Uint256,
    pub flat_fee: Uint256,
    pub governance_fee: Uint256,
}

/// A snapshot of a pool's reserves and exposure.
#[derive(Clone, Copy, Debug, PartialEq, Eq, Structural)]
pub struct PoolInfo {
    pub share_reserves: Uint256,
    pub bond_reserves: Uint256,
    pub share_adjustment: Signed256,
    pub long_exposure: Uint256,
    pub share_price: Uint256,
}

impl PoolConfig {
    /// Prices are positive, checkpoints have a length, and each fee is a
    /// fraction below one.
    pub open spec fn wf(self) -> bool {
        &&& self.initial_share_price.value() > 0
        &&& self.checkpoint_duration.value() > 0
        &&& self.curve_fee.value() < fixed_one()
        &&& self.flat_fee.value() < fixed_one()
        &&& self.governance_fee.value() < fixed_one()
    }
}

impl PoolInfo {
    pub open spec fn wf(self) -> bool {
        self.share_adjustment.wf()
    }
}

/// The start of the checkpoint that holds `time`.
pub open spec fn checkpoint_spec(time: nat, duration: nat) -> nat {
    (time - time % duration) as nat
}

/// Share reserves valued at the share price, less the exposure of open
/// longs and the reserves that must stay in the pool.
pub open spec fn solvency_spec(share_reserves: nat, share_price: nat, long_exposure: nat,
    minimum_share_reserves: nat) -> int {
    (share_reserves * share_price / fixed_one()) as int - long_exposure as int
        - minimum_share_reserves as int
}

/// Whether a fee lies below one.
fn is_fraction(fee: Uint256) -> (r: bool)
    ensures
        r == (fee.value() < fixed_one()),
{
    let one = Uint256::from_u64(1_000_000_000_000_000_000);
    u256_checked_sub(fee, one).is_none()
}

/// A pool's configuration paired with one snapshot of its reserves. Queries
/// read it and never change it.
#[derive(Clone, Copy, Debug, PartialEq, Eq, Structural)]
pub struct HyperdriveState {
    pub config: PoolConfig,
    pub info: PoolInfo,
}

impl HyperdriveState {
    pub open spec fn wf(self) -> bool {
        self.config.wf() && self.info.wf()
    }

    /// Pairs a configuration with a snapshot, or refuses a pair that breaks
    /// the pool's invariants.
    pub fn new(config: PoolConfig, info: PoolInfo) -> (r: Result<HyperdriveState, HyperdriveError>)
        ensures
            r is Ok <==> (config.wf() && info.wf()),
            r matches Ok(s) ==> s.config == config && s.info == info && s.wf(),
            r matches Err(e) ==> e == HyperdriveError::InvalidPool,
    {
        let valid_config = !config.initial_share_price.is_zero()
            && !config.checkpoint_duration.is_zero() && is_fraction(config.curve_fee)
            && is_fraction(config.flat_fee) && is_fraction(config.governance_fee);
        let valid_info = !(info.share_adjustment.negative
            && info.share_adjustment.magnitude.is_zero());
        if valid_config && valid_info {
            Ok(HyperdriveState { config, info })
        } else {
            Err(HyperdriveError::InvalidPool)
        }
    }

    /// Floors a timestamp onto the checkpoint grid.
    pub fn checkpoint_of(&self, time: Uint256) -> (r: Uint256)
        requires
            self.wf(),
        ensures
            r.value() == checkpoint_spec(time.value(), self.config.checkpoint_duration.value()),
            r.value() <= time.value(),
    {
        let d = self.config.checkpoint_duration;
        let rem = u256_rem(time, d);
        proof {
            lemma_mod_at_most(time.value(), d.value());
        }
        match u256_checked_sub(time, rem) {
            Some(r) => r,
            None => {
                assert(false);
                time
            },
        }
    }

    /// The checkpoint of a timestamp given as decimal text, written back as
    /// decimal text.
    pub fn to_checkpoint(&self, time: &str) -> (r: Result<String, HyperdriveError>)
        requires
            self.wf(),
        ensures
            r is Ok <==> (all_digits(time@) && dec_value(time@) < u256_modulus()),
            r matches Ok(s) ==> s@ == dec_string(
                checkpoint_spec(dec_value(time@), self.config.checkpoint_duration.value()),
            ),
            r matches Err(e) ==> e == HyperdriveError::InvalidNumber,
    {
        let t = parse_fixed(time)?;
        Ok(format_fixed(self.checkpoint_of(t)))
    }

    /// `share_reserves × share_price − long_exposure − minimum_share_reserves`,
    /// the product rounded down; negative where the pool cannot cover its
    /// longs. Fails where the product, or the sum of the two amounts taken
    /// off, leaves the 256-bit range.
    pub fn solvency(&self) -> (r: Result<Signed256, HyperdriveError>)
        requires
            self.wf(),
        ensures
            r is Ok <==> (self.info.share_reserves.value() * self.info.share_price.value()
                < u256_modulus() && self.info.long_exposure.value()
                + self.config.minimum_share_reserves.value() < u256_modulus()),
            r matches Ok(s) ==> s.wf() && s.value() == solvency_spec(
                self.info.share_reserves.value(),
                self.info.share_price.value(),
                self.info.long_exposure.value(),
                self.config.minimum_share_reserves.value(),
            ),
            r matches Err(e) ==> e == HyperdriveError::Overflow,
    {
        let z = self.info.share_reserves;
        let c = self.info.share_price;
        if u256_checked_mul(z, c).is_none() {
            return Err(HyperdriveError::Overflow);
        }
        let held = fixed_mul_down(z, c);
        let owed = match u256_checked_add(self.info.long_exposure, self.config.minimum_share_reserves) {
            Some(v) => v,
            None => {
                return Err(HyperdriveError::Overflow);
            },
        };
        match u256_checked_sub(held, owed) {
            Some(m) => Ok(Signed256 { negative: false, magnitude: m }),
            None => {
                let m = match u256_checked_sub(owed, held) {
                    Some(v) => v,
                    None => {
                        assert(false);
                        owed
                    },
                };
                Ok(Signed256 { negative: true, magnitude: m })
            },
        }
    }

    /// The solvency, written as signed decimal text.
    pub fn get_solvency(&self) -> (r: Result<String, HyperdriveError>)
        requires
            self.wf(),
        ensures
            r is Ok <==> (self.info.share_reserves.value() * self.info.share_price.value()
                < u256_modulus() && self.info.long_exposure.value()
                + self.config.minimum_share_reserves.value() < u256_modulus()),
            r matches Ok(s) ==> s@ == signed_dec_string(
                solvency_spec(
                    self.info.share_reserves.value(),
                    self.info.share_price.value(),
                    self.info.long_exposure.value(),
                    self.config.minimum_share_reserves.value(),
                ),
            ),
            r matches Err(e) ==> e == HyperdriveError::Overflow,
    {
        let s = self.solvency()?;
        Ok(format_signed(s))
    }
}

/// A remainder never exceeds the number divided.
proof fn lemma_mod_at_most(t: nat, d: nat)
    requires
        d > 0,
    ensures
        t % d <= t,
{
    lemma_mod_pos_bound(t as int, d as int);
    if t < d {
        lemma_small_mod(t, d);
    }
}

/// Flooring onto the checkpoint grid never moves a time forward, and a time
/// already on the grid stays where it is: flooring twice is flooring once.
pub proof fn lemma_checkpoint_idempotent(time: nat, duration: nat)
    requires
        duration > 0,
    ensures
        checkpoint_spec(time, duration) <= time,
        checkpoint_spec(checkpoint_spec(time, duration), duration) == checkpoint_spec(
            time,
            duration,
        ),
{
    lemma_mod_at_most(time, duration);
    let q = time as int / duration as int;
    lemma_fundamental_div_mod(time as int, duration as int);
    lemma_mul_is_commutative(duration as int, q);
    lemma_mod_multiples_basic(q, duration as int);
    assert(checkpoint_spec(time, duration) == q * duration);
}

/// Flooring a time given as text twice gives the text that flooring it once
/// gives: the text that `to_checkpoint` writes reads back as a time on the
/// grid, which it then writes unchanged.
pub proof fn lemma_to_checkpoint_text_idempotent(time: Seq<char>, duration: nat)
    requires
        duration > 0,
        all_digits(time),
        dec_value(time) < u256_modulus(),
    ensures
        ({
            let once = dec_string(checkpoint_spec(dec_value(time), duration));
            &&& all_digits(once)
            &&& dec_value(once) < u256_modulus()
            &&& dec_string(checkpoint_spec(dec_value(once), duration)) == once
            &&& dec_value(once) <= dec_value(time)
        }),
{
    let c = checkpoint_spec(dec_value(time), duration);
    lemma_checkpoint_idempotent(dec_value(time), duration);
    lemma_dec_round_trip(c);
}

} // verus!
