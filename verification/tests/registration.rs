use std::str::FromStr;

use oracle::{Amount, Caller, Oracle, OracleError, PriceEntry, ResourceId};
use scrypto::math::Decimal;

fn amount(text: &str) -> Amount {
    Amount::from_digits(Decimal::from_str(text).unwrap().attos().to_digits())
}

fn xrd() -> ResourceId {
    ResourceId::new(scrypto::constants::XRD.into_node_id().0)
}

fn lsulp() -> ResourceId {
    ResourceId::new([7u8; 30])
}

fn foo() -> ResourceId {
    ResourceId::new([9u8; 30])
}

fn entry(resource_id: ResourceId, market: &str, price: &str, last_updated: u64) -> PriceEntry {
    PriceEntry { resource_id, price: amount(price), last_updated, market_id: market.to_string() }
}

#[test]
fn new_registry_holds_the_base_and_the_derived_entry() {
    let mut oracle = Oracle::instantiate_oracle(lsulp(), 1000).unwrap();
    let prices = oracle.get_prices();
    assert_eq!(
        prices,
        vec![
            entry(xrd(), "GATEIO:XRD_USDT", "0.015", 1000),
            entry(lsulp(), "LSULP", "0.015", 1000),
        ]
    );
}

#[test]
fn base_entry_is_for_the_native_token() {
    let mut oracle = Oracle::instantiate_oracle(lsulp(), 1).unwrap();
    let base = oracle.get_prices()[0].resource_id;
    assert_eq!(base.bytes.to_vec(), scrypto::constants::XRD.to_vec());
    assert_eq!(
        base.bytes,
        [
            93, 166, 99, 24, 198, 49, 140, 97, 245, 166, 27, 76, 99, 24, 198, 49, 140, 247, 148,
            170, 141, 41, 95, 20, 230, 49, 140, 99, 24, 198
        ]
    );
}

#[test]
fn registry_cannot_derive_the_base_from_itself() {
    let result = Oracle::instantiate_oracle(xrd(), 1000);
    assert_eq!(result.err(), Some(OracleError::DuplicateResource));
}

#[test]
fn owner_registers_a_third_entry() {
    let mut oracle = Oracle::instantiate_oracle(lsulp(), 1000).unwrap();
    let result = oracle.add_pair(Caller::Owner, foo(), "FOO:USD".to_string(), amount("1.0"), 1234);
    assert_eq!(result, Ok(()));
    let prices = oracle.get_prices();
    assert_eq!(prices.len(), 3);
    assert_eq!(prices[2], entry(foo(), "FOO:USD", "1.0", 1234));
    assert_eq!(prices[0], entry(xrd(), "GATEIO:XRD_USDT", "0.015", 1000));
    assert_eq!(prices[1], entry(lsulp(), "LSULP", "0.015", 1000));
    assert!(oracle.is_registered(&foo()));
}

#[test]
fn stranger_cannot_register() {
    let mut oracle = Oracle::instantiate_oracle(lsulp(), 1000).unwrap();
    let before = oracle.get_prices();
    let result = oracle.add_pair(Caller::Other, foo(), "FOO:USD".to_string(), amount("1.0"), 1234);
    assert_eq!(result, Err(OracleError::Unauthorized));
    assert_eq!(oracle.get_prices().len(), 2);
    assert_eq!(oracle.get_prices(), before);
    assert!(!oracle.is_registered(&foo()));
}

#[test]
fn resource_is_registered_once() {
    let mut oracle = Oracle::instantiate_oracle(lsulp(), 1000).unwrap();
    oracle.add_pair(Caller::Owner, foo(), "FOO:USD".to_string(), amount("1.0"), 1234).unwrap();
    let before = oracle.get_prices();
    for taken in [foo(), lsulp(), xrd()] {
        let result = oracle.add_pair(Caller::Owner, taken, "BAR:USD".to_string(), amount("2"), 2000);
        assert_eq!(result, Err(OracleError::DuplicateResource));
        assert_eq!(oracle.get_prices().len(), 3);
        assert_eq!(oracle.get_prices(), before);
    }
}

#[test]
fn stranger_with_a_registered_resource_is_unauthorized() {
    let mut oracle = Oracle::instantiate_oracle(lsulp(), 1000).unwrap();
    let result = oracle.add_pair(Caller::Other, lsulp(), "BAR:USD".to_string(), amount("2"), 2000);
    assert_eq!(result, Err(OracleError::Unauthorized));
}

#[test]
fn resources_that_differ_in_one_byte_are_distinct() {
    let mut oracle = Oracle::instantiate_oracle(lsulp(), 1000).unwrap();
    let mut bytes = [7u8; 30];
    bytes[29] = 8;
    let near = ResourceId::new(bytes);
    assert!(!near.same_as(&lsulp()));
    assert!(near.same_as(&ResourceId::new(bytes)));
    assert!(!oracle.is_registered(&near));
    assert_eq!(oracle.add_pair(Caller::Owner, near, "NEAR".to_string(), amount("1"), 1), Ok(()));
    assert!(oracle.is_registered(&near));
}

#[test]
fn registry_is_restored_from_its_entries() {
    let mut oracle = Oracle::instantiate_oracle(lsulp(), 1000).unwrap();
    oracle.add_pair(Caller::Owner, foo(), "FOO:USD".to_string(), amount("1.0"), 1234).unwrap();
    let entries = oracle.get_prices();
    let mut restored = Oracle::from_entries(entries.clone()).unwrap();
    assert_eq!(restored.get_prices(), entries);
}

#[test]
fn entries_that_make_no_registry_are_refused() {
    let base = entry(xrd(), "GATEIO:XRD_USDT", "0.015", 1000);
    let derived = entry(lsulp(), "LSULP", "0.015", 1000);
    let third = entry(foo(), "FOO:USD", "1", 1000);
    assert!(Oracle::from_entries(vec![]).is_none());
    assert!(Oracle::from_entries(vec![base.clone()]).is_none());
    assert!(Oracle::from_entries(vec![derived.clone(), base.clone()]).is_none());
    assert!(Oracle::from_entries(vec![base.clone(), derived.clone(), derived.clone()]).is_none());
    assert!(Oracle::from_entries(vec![base.clone(), derived.clone(), third.clone(), base.clone()]).is_none());
    assert!(Oracle::from_entries(vec![base.clone(), base.clone()]).is_none());
    assert!(Oracle::from_entries(vec![base, derived, third]).is_some());
}

#[test]
fn errors_describe_themselves() {
    assert_eq!(OracleError::StaleUpdate.message(), "Price is too old");
    assert_eq!(OracleError::DivisionByZero.message(), "Pool has no shares outstanding");
    assert_eq!(OracleError::Overflow.message(), "Overflow");
    assert_eq!(OracleError::Unauthorized.message(), "Caller is not the owner");
    assert_eq!(OracleError::DuplicateResource.message(), "Resource is already registered");
    assert_eq!(OracleError::UpstreamValidationFailure.message(), "Attestation was rejected");
}
