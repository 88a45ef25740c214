use std::str::FromStr;

use oracle::{derived_price, Amount, OracleError, PoolValuation};
use scrypto::math::Decimal;

fn amount(text: &str) -> Amount {
    Amount::from_digits(Decimal::from_str(text).unwrap().attos().to_digits())
}

fn pool(valuation: &str, share_supply: &str) -> PoolValuation {
    PoolValuation { valuation: amount(valuation), share_supply: amount(share_supply) }
}

#[test]
fn digits_are_the_attos_in_twos_complement() {
    assert_eq!(amount("1"), Amount { lo: 1_000_000_000_000_000_000, mid: 0, hi: 0 });
    assert_eq!(amount("0.015"), Amount { lo: 15_000_000_000_000_000, mid: 0, hi: 0 });
    assert_eq!(amount("-0.000000000000000001"), Amount { lo: u64::MAX, mid: u64::MAX, hi: u64::MAX });
    assert_eq!(amount("18.446744073709551616"), Amount { lo: 0, mid: 1, hi: 0 });
    assert_eq!(
        Amount::from_digits(Decimal::MIN.attos().to_digits()),
        Amount { lo: 0, mid: 0, hi: 0x8000_0000_0000_0000 }
    );
    assert_eq!(
        Amount::from_digits(Decimal::MAX.attos().to_digits()),
        Amount { lo: u64::MAX, mid: u64::MAX, hi: 0x7fff_ffff_ffff_ffff }
    );
}

#[test]
fn digits_round_trip() {
    let a = Amount::from_digits([1, 2, 3]);
    assert_eq!(a.to_digits(), [1, 2, 3]);
    assert_eq!(a, Amount { lo: 1, mid: 2, hi: 3 });
}

#[test]
fn zero_is_zero() {
    assert!(Amount::zero().is_zero());
    assert_eq!(Amount::zero(), amount("0"));
    assert!(!amount("0.000000000000000001").is_zero());
    assert!(!amount("-1").is_zero());
    assert!(!Amount { lo: 0, mid: 1, hi: 0 }.is_zero());
    assert!(!Amount { lo: 0, mid: 0, hi: 1 }.is_zero());
}

#[test]
fn derived_price_is_price_times_valuation_per_share() {
    assert_eq!(derived_price(amount("0.02"), pool("200", "1000")), Ok(amount("0.004")));
    assert_eq!(derived_price(amount("0.015"), pool("110", "100")), Ok(amount("0.0165")));
    assert_eq!(derived_price(amount("3"), pool("7", "7")), Ok(amount("3")));
    assert_eq!(derived_price(amount("0"), pool("7", "3")), Ok(amount("0")));
}

#[test]
fn valuation_per_share_is_rounded_toward_zero() {
    assert_eq!(derived_price(amount("1"), pool("1", "3")), Ok(amount("0.333333333333333333")));
    assert_eq!(derived_price(amount("1"), pool("2", "3")), Ok(amount("0.666666666666666666")));
    assert_eq!(derived_price(amount("1"), pool("-1", "3")), Ok(amount("-0.333333333333333333")));
    assert_eq!(derived_price(amount("1"), pool("2", "-3")), Ok(amount("-0.666666666666666666")));
    assert_eq!(derived_price(amount("1"), pool("-2", "-3")), Ok(amount("0.666666666666666666")));
    assert_eq!(derived_price(amount("1"), pool("-0.000000000000000001", "3")), Ok(amount("0")));
}

#[test]
fn product_is_rounded_toward_zero() {
    assert_eq!(
        derived_price(amount("0.000000000000000003"), pool("1", "2")),
        Ok(amount("0.000000000000000001"))
    );
    assert_eq!(
        derived_price(amount("-0.000000000000000003"), pool("1", "2")),
        Ok(amount("-0.000000000000000001"))
    );
    assert_eq!(derived_price(amount("0.000000000000000001"), pool("1", "2")), Ok(amount("0")));
    assert_eq!(derived_price(amount("-0.000000000000000001"), pool("1", "2")), Ok(amount("0")));
    assert_eq!(derived_price(amount("3"), pool("1", "3")), Ok(amount("0.999999999999999999")));
}

#[test]
fn no_shares_is_a_division_by_zero() {
    assert_eq!(derived_price(amount("0.02"), pool("200", "0")), Err(OracleError::DivisionByZero));
    assert_eq!(derived_price(amount("0"), pool("0", "0")), Err(OracleError::DivisionByZero));
}

#[test]
fn valuation_per_share_beyond_range_is_an_overflow() {
    let max = Amount::from_digits(Decimal::MAX.attos().to_digits());
    let min = Amount::from_digits(Decimal::MIN.attos().to_digits());
    let reading = PoolValuation { valuation: max, share_supply: amount("0.5") };
    assert_eq!(derived_price(amount("0"), reading), Err(OracleError::Overflow));
    let reading = PoolValuation { valuation: min, share_supply: amount("-1") };
    assert_eq!(derived_price(amount("1"), reading), Err(OracleError::Overflow));
}

#[test]
fn derived_price_beyond_range_is_an_overflow() {
    let max = Amount::from_digits(Decimal::MAX.attos().to_digits());
    assert_eq!(derived_price(max, pool("2", "1")), Err(OracleError::Overflow));
    assert_eq!(derived_price(max, pool("1", "1")), Ok(max));
    let reading = PoolValuation { valuation: max, share_supply: amount("1") };
    assert_eq!(derived_price(amount("1"), reading), Ok(max));
    assert_eq!(derived_price(amount("1.000000000000000001"), reading), Err(OracleError::Overflow));
    let min = Amount::from_digits(Decimal::MIN.attos().to_digits());
    assert_eq!(derived_price(min, pool("-1", "1")), Err(OracleError::Overflow));
}

#[test]
fn most_negative_amount_is_never_computed() {
    let min = Amount::from_digits(Decimal::MIN.attos().to_digits());
    let next = Amount { lo: 1, mid: 0, hi: 0x8000_0000_0000_0000 };
    assert_eq!(derived_price(min, pool("1", "1")), Err(OracleError::Overflow));
    assert_eq!(derived_price(next, pool("1", "1")), Ok(next));
    let reading = PoolValuation { valuation: min, share_supply: amount("1") };
    assert_eq!(derived_price(amount("1"), reading), Err(OracleError::Overflow));
    let reading = PoolValuation { valuation: next, share_supply: amount("1") };
    assert_eq!(derived_price(amount("1"), reading), Ok(next));
    let max = Amount::from_digits(Decimal::MAX.attos().to_digits());
    assert_eq!(derived_price(max, pool("-1", "1")), Ok(next));
}

#[test]
fn most_negative_amount_is_a_valid_operand() {
    let min = Amount::from_digits(Decimal::MIN.attos().to_digits());
    let half_min = Amount { lo: 0, mid: 0, hi: 0xc000_0000_0000_0000 };
    assert_eq!(derived_price(min, pool("1", "2")), Ok(half_min));
    let reading = PoolValuation { valuation: min, share_supply: amount("2") };
    assert_eq!(derived_price(amount("1"), reading), Ok(half_min));
    let minus_half_min = Amount { lo: 0, mid: 0, hi: 0x4000_0000_0000_0000 };
    let reading = PoolValuation { valuation: min, share_supply: amount("-2") };
    assert_eq!(derived_price(amount("1"), reading), Ok(minus_half_min));
    let reading = PoolValuation { valuation: amount("0"), share_supply: min };
    assert_eq!(derived_price(min, reading), Ok(amount("0")));
}
