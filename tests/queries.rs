use hyperdrivepy::{
    effective_share_reserves, format_fixed, format_signed, get_effective_share_reserves,
    parse_fixed, parse_signed, HyperdriveError, HyperdriveState, PoolConfig, PoolInfo, Signed256,
    Uint256,
};

const ONE: u64 = 1_000_000_000_000_000_000;

fn fixed(s: &str) -> Uint256 {
    parse_fixed(s).unwrap()
}

fn config(checkpoint_duration: u64, minimum_share_reserves: &str) -> PoolConfig {
    PoolConfig {
        initial_share_price: Uint256::from_u64(ONE),
        minimum_share_reserves: fixed(minimum_share_reserves),
        position_duration: Uint256::from_u64(31_536_000),
        checkpoint_duration: Uint256::from_u64(checkpoint_duration),
        time_stretch: Uint256::from_u64(44_463_125_629_060_298),
        curve_fee: Uint256::from_u64(ONE / 100),
        flat_fee: Uint256::from_u64(ONE / 2000),
        governance_fee: Uint256::from_u64(ONE / 10),
    }
}

fn info(share_reserves: &str, share_price: &str, long_exposure: &str) -> PoolInfo {
    PoolInfo {
        share_reserves: fixed(share_reserves),
        bond_reserves: fixed("1100000000000000000000000"),
        share_adjustment: Signed256::from_unsigned(Uint256::zero()),
        long_exposure: fixed(long_exposure),
        share_price: fixed(share_price),
    }
}

fn state(checkpoint_duration: u64) -> HyperdriveState {
    HyperdriveState::new(
        config(checkpoint_duration, "10000000000000000000"),
        info("1000000000000000000000000", "1000000000000000000", "0"),
    )
    .unwrap()
}

#[test]
fn parse_and_format_round_trip() {
    let s = "1000000000000000000000000";
    assert_eq!(format_fixed(fixed(s)), s);
    assert_eq!(format_fixed(fixed("0")), "0");
    assert_eq!(format_fixed(fixed("007")), "7");
    assert_eq!(format_fixed(fixed("")), "0");
}

#[test]
fn parse_fixed_words() {
    // 2^64 + 5 lands in the first two words.
    let v = fixed("18446744073709551621");
    assert_eq!(v, Uint256 { w0: 5, w1: 1, w2: 0, w3: 0 });
}

#[test]
fn parse_fixed_largest_and_overflow() {
    let max = "115792089237316195423570985008687907853269984665640564039457584007913129639935";
    assert_eq!(format_fixed(fixed(max)), max);
    let over = "115792089237316195423570985008687907853269984665640564039457584007913129639936";
    assert_eq!(parse_fixed(over), Err(HyperdriveError::InvalidNumber));
}

#[test]
fn parse_fixed_rejects_non_digits() {
    assert_eq!(parse_fixed("12a"), Err(HyperdriveError::InvalidNumber));
    assert_eq!(parse_fixed("-1"), Err(HyperdriveError::InvalidNumber));
    assert_eq!(parse_fixed("1.5"), Err(HyperdriveError::InvalidNumber));
}

#[test]
fn parse_signed_values() {
    let neg = parse_signed("-42").unwrap();
    assert!(neg.negative);
    assert_eq!(neg.magnitude, Uint256::from_u64(42));
    let pos = parse_signed("+42").unwrap();
    assert!(!pos.negative);
    assert_eq!(pos.magnitude, Uint256::from_u64(42));
    let zero = parse_signed("0").unwrap();
    assert!(!zero.negative);
    assert_eq!(parse_signed("-0"), Err(HyperdriveError::InvalidNumber));
    assert_eq!(parse_signed("-"), Err(HyperdriveError::InvalidNumber));
    assert_eq!(format_signed(parse_signed("+").unwrap()), "0");
    assert_eq!(format_signed(neg), "-42");
    assert_eq!(format_signed(pos), "42");
}

#[test]
fn parse_signed_range() {
    let min = "-57896044618658097711785492504343953926634992332820282019728792003956564819968";
    assert_eq!(format_signed(parse_signed(min).unwrap()), min);
    let too_low = "-57896044618658097711785492504343953926634992332820282019728792003956564819969";
    assert_eq!(parse_signed(too_low), Err(HyperdriveError::InvalidNumber));
    let too_high = "57896044618658097711785492504343953926634992332820282019728792003956564819968";
    assert_eq!(parse_signed(too_high), Err(HyperdriveError::InvalidNumber));
    assert_eq!(parse_signed("--1"), Err(HyperdriveError::InvalidNumber));
}

#[test]
fn to_checkpoint_floors_onto_grid() {
    let s = state(3600);
    assert_eq!(s.to_checkpoint("7205").unwrap(), "7200");
    assert_eq!(s.to_checkpoint("7200").unwrap(), "7200");
    assert_eq!(s.to_checkpoint("3599").unwrap(), "0");
    assert_eq!(s.to_checkpoint("0").unwrap(), "0");
}

#[test]
fn to_checkpoint_idempotent_and_not_later() {
    let s = state(86_400);
    for t in ["1700000123", "86400", "86399", "123456789012345678901234567890"] {
        let once = s.to_checkpoint(t).unwrap();
        let twice = s.to_checkpoint(&once).unwrap();
        assert_eq!(once, twice);
        let t_val: u128 = t.parse().unwrap();
        let once_val: u128 = once.parse().unwrap();
        assert!(once_val <= t_val);
    }
}

#[test]
fn to_checkpoint_rejects_bad_time() {
    let s = state(3600);
    assert_eq!(s.to_checkpoint("soon"), Err(HyperdriveError::InvalidNumber));
}

#[test]
fn checkpoint_of_values() {
    let s = state(10);
    assert_eq!(s.checkpoint_of(Uint256::from_u64(12345)), Uint256::from_u64(12340));
}

#[test]
fn new_refuses_invalid_pool() {
    let good_info = info("1000000000000000000000000", "1000000000000000000", "0");
    assert_eq!(
        HyperdriveState::new(config(0, "0"), good_info),
        Err(HyperdriveError::InvalidPool)
    );
    let mut bad_fee = config(3600, "0");
    bad_fee.curve_fee = Uint256::from_u64(ONE);
    assert_eq!(
        HyperdriveState::new(bad_fee, good_info),
        Err(HyperdriveError::InvalidPool)
    );
    let mut bad_price = config(3600, "0");
    bad_price.initial_share_price = Uint256::zero();
    assert_eq!(
        HyperdriveState::new(bad_price, good_info),
        Err(HyperdriveError::InvalidPool)
    );
    let mut negative_zero = good_info;
    negative_zero.share_adjustment = Signed256 { negative: true, magnitude: Uint256::zero() };
    assert_eq!(
        HyperdriveState::new(config(3600, "0"), negative_zero),
        Err(HyperdriveError::InvalidPool)
    );
}

#[test]
fn solvency_positive() {
    // 1,000,000 shares at 1.5 base each, 200,000 exposure, 10 minimum reserves.
    let s = HyperdriveState::new(
        config(3600, "10000000000000000000"),
        info("1000000000000000000000000", "1500000000000000000", "200000000000000000000000"),
    )
    .unwrap();
    assert_eq!(s.get_solvency().unwrap(), "1299990000000000000000000");
}

#[test]
fn solvency_rounds_product_down() {
    // 3 raw units at a price of 0.5 are 1.5 raw units, which rounds to 1.
    let s = HyperdriveState::new(config(3600, "0"), info("3", "500000000000000000", "0")).unwrap();
    assert_eq!(s.get_solvency().unwrap(), "1");
}

#[test]
fn solvency_negative() {
    let s = HyperdriveState::new(
        config(3600, "10000000000000000000"),
        info("100000000000000000000", "1000000000000000000", "200000000000000000000"),
    )
    .unwrap();
    assert_eq!(s.get_solvency().unwrap(), "-110000000000000000000");
    let v = s.solvency().unwrap();
    assert!(v.negative);
}

#[test]
fn solvency_overflow() {
    let big = "100000000000000000000000000000000000000000";
    let s = HyperdriveState::new(config(3600, "0"), info(big, big, "0")).unwrap();
    assert_eq!(s.get_solvency(), Err(HyperdriveError::Overflow));
    let max = "115792089237316195423570985008687907853269984665640564039457584007913129639935";
    let mut i = info("1", "1", max);
    i.long_exposure = fixed(max);
    let s = HyperdriveState::new(config(3600, "1"), i).unwrap();
    assert_eq!(s.get_solvency(), Err(HyperdriveError::Overflow));
}

#[test]
fn effective_share_reserves_zero_adjustment() {
    for z in ["0", "1", "1000000000000000000000000", "115792089237316195423570985008687907853269984665640564039457584007913129639935"] {
        assert_eq!(get_effective_share_reserves(z, "0").unwrap(), z);
    }
    let z = fixed("123456");
    assert_eq!(effective_share_reserves(z, parse_signed("0").unwrap()), Ok(z));
}

#[test]
fn effective_share_reserves_values() {
    assert_eq!(get_effective_share_reserves("1000", "300").unwrap(), "700");
    assert_eq!(get_effective_share_reserves("1000", "-300").unwrap(), "1300");
    assert_eq!(get_effective_share_reserves("1000", "1000").unwrap(), "0");
}

#[test]
fn effective_share_reserves_errors() {
    assert_eq!(
        get_effective_share_reserves("1000", "1001"),
        Err(HyperdriveError::NegativeReserves)
    );
    let max = "115792089237316195423570985008687907853269984665640564039457584007913129639935";
    assert_eq!(get_effective_share_reserves(max, "-1"), Err(HyperdriveError::Overflow));
    assert_eq!(get_effective_share_reserves("x", "1"), Err(HyperdriveError::InvalidNumber));
    assert_eq!(get_effective_share_reserves("1", "1e3"), Err(HyperdriveError::InvalidNumber));
}
