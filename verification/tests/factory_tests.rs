use amm_core::account::AccountId;
use amm_core::factory::{Error, Factory, PairCreated, PairDeployment, PairRecord};

fn id(byte: u8) -> AccountId {
    AccountId::from([byte; 32])
}

fn new_factory() -> Factory {
    Factory::new(id(0xf0), id(0xad))
}

#[test]
fn should_not_initialize_factory_with_identical_tokens() {
    let mut contract = new_factory();
    let result = contract.createPair(AccountId::from([0x01; 32]), AccountId::from([0x01; 32]), id(0x50));
    assert_eq!(result, Err(Error::IdenticalAddresses));
    assert_eq!(contract.allPairsLength(), 0);
    assert_eq!(contract.pairDeployment(id(0x01), id(0x01), 1, 100), Err(Error::IdenticalAddresses));
}

#[test]
fn should_not_initialize_factory_with_zero_address() {
    let mut contract = new_factory();
    let mut result = contract.createPair(AccountId::from([0x00; 32]), AccountId::from([0x02; 32]), id(0x50));
    assert_eq!(result, Err(Error::ZeroAddress));
    result = contract.createPair(AccountId::from([0x01; 32]), AccountId::from([0x00; 32]), id(0x50));
    assert_eq!(result, Err(Error::ZeroAddress));
    assert_eq!(contract.allPairsLength(), 0);
    assert_eq!(contract.getPair(id(0x00), id(0x02)), None);
    assert_eq!(contract.getPair(id(0x01), id(0x00)), None);
    assert_eq!(contract.pairDeployment(id(0x00), id(0x02), 1, 100), Err(Error::ZeroAddress));
    assert_eq!(contract.pairDeployment(id(0x01), id(0x00), 1, 100), Err(Error::ZeroAddress));
}

#[test]
fn two_null_assets_are_identical_addresses() {
    let mut contract = new_factory();
    let result = contract.createPair(AccountId::zero(), AccountId::zero(), id(0x50));
    assert_eq!(result, Err(Error::IdenticalAddresses));
}

#[test]
fn a_new_registry_is_empty() {
    let contract = new_factory();
    assert_eq!(contract.feeTo(), id(0xf0));
    assert_eq!(contract.feeToSetter(), id(0xad));
    assert_eq!(contract.allPairsLength(), 0);
    assert_eq!(contract.allPairs(0), None);
    assert_eq!(contract.getPair(id(1), id(2)), None);
}

#[test]
fn create_pair_records_the_pool_under_both_orders() {
    let mut contract = new_factory();
    let result = contract.createPair(id(0x02), id(0x01), id(0x50));
    assert_eq!(
        result,
        Ok(PairCreated { token0: id(0x01), token1: id(0x02), pair: id(0x50), current_pair_length: 1 })
    );
    assert_eq!(contract.getPair(id(0x01), id(0x02)), Some(id(0x50)));
    assert_eq!(contract.getPair(id(0x02), id(0x01)), Some(id(0x50)));
    assert_eq!(contract.getPair(id(0x01), id(0x03)), None);
    assert_eq!(contract.allPairsLength(), 1);
    assert_eq!(contract.allPairs(0), Some(id(0x50)));
    assert_eq!(contract.allPairs(1), None);
}

#[test]
fn create_pair_appends_in_the_order_of_creation() {
    let mut contract = new_factory();
    assert_eq!(
        contract.createPair(id(0x01), id(0x02), id(0x50)),
        Ok(PairCreated { token0: id(0x01), token1: id(0x02), pair: id(0x50), current_pair_length: 1 })
    );
    assert_eq!(
        contract.createPair(id(0x03), id(0x01), id(0x51)),
        Ok(PairCreated { token0: id(0x01), token1: id(0x03), pair: id(0x51), current_pair_length: 2 })
    );
    assert_eq!(
        contract.createPair(id(0x03), id(0x02), id(0x52)),
        Ok(PairCreated { token0: id(0x02), token1: id(0x03), pair: id(0x52), current_pair_length: 3 })
    );
    assert_eq!(contract.allPairsLength(), 3);
    assert_eq!(contract.allPairs(0), Some(id(0x50)));
    assert_eq!(contract.allPairs(1), Some(id(0x51)));
    assert_eq!(contract.allPairs(2), Some(id(0x52)));
    assert_eq!(contract.allPairs(3), None);
    assert_eq!(contract.allPairs(u64::MAX), None);
    assert_eq!(contract.getPair(id(0x01), id(0x03)), Some(id(0x51)));
    assert_eq!(contract.getPair(id(0x03), id(0x01)), Some(id(0x51)));
    assert_eq!(contract.getPair(id(0x02), id(0x03)), Some(id(0x52)));
    assert_eq!(contract.getPair(id(0x01), id(0x02)), Some(id(0x50)));
}

#[test]
fn an_existing_pair_is_refused_in_either_order() {
    let mut contract = new_factory();
    assert!(contract.createPair(id(0x0a), id(0x0b), id(0x50)).is_ok());
    assert_eq!(contract.createPair(id(0x0a), id(0x0b), id(0x51)), Err(Error::PairExists));
    assert_eq!(contract.createPair(id(0x0b), id(0x0a), id(0x51)), Err(Error::PairExists));
    assert_eq!(contract.pairDeployment(id(0x0a), id(0x0b), 2, 100), Err(Error::PairExists));
    assert_eq!(contract.pairDeployment(id(0x0b), id(0x0a), 2, 100), Err(Error::PairExists));
    assert_eq!(contract.allPairsLength(), 1);
    assert_eq!(contract.getPair(id(0x0a), id(0x0b)), Some(id(0x50)));

    let mut reversed = new_factory();
    assert!(reversed.createPair(id(0x0b), id(0x0a), id(0x50)).is_ok());
    assert_eq!(reversed.createPair(id(0x0a), id(0x0b), id(0x51)), Err(Error::PairExists));
    assert_eq!(reversed.createPair(id(0x0b), id(0x0a), id(0x51)), Err(Error::PairExists));
    assert_eq!(reversed.allPairsLength(), 1);
    assert_eq!(reversed.getPair(id(0x0b), id(0x0a)), Some(id(0x50)));
}

#[test]
fn pair_deployment_names_assets_endowment_and_salt() {
    let contract = new_factory();
    assert_eq!(
        contract.pairDeployment(id(0x02), id(0x01), 0x0102_0304, 1001),
        Ok(PairDeployment { token0: id(0x01), token1: id(0x02), endowment: 500, salt: [4, 3, 2, 1] })
    );
    assert_eq!(
        contract.pairDeployment(id(0x01), id(0x02), 1, 0),
        Ok(PairDeployment { token0: id(0x01), token1: id(0x02), endowment: 0, salt: [1, 0, 0, 0] })
    );
    assert_eq!(
        contract.pairDeployment(id(0x01), id(0x02), u32::MAX, u128::MAX),
        Ok(PairDeployment {
            token0: id(0x01),
            token1: id(0x02),
            endowment: u128::MAX / 2,
            salt: [255, 255, 255, 255],
        })
    );
    assert_eq!(contract.pairDeployment(id(0x01), id(0x02), 0xdead_beef, 7).unwrap().salt, 0xdead_beefu32.to_le_bytes());
    assert_eq!(contract.allPairsLength(), 0);
}

#[test]
fn canonical_order_is_the_order_of_the_bytes() {
    let mut low = [0xffu8; 32];
    low[0] = 0x01;
    let mut high = [0x00u8; 32];
    high[0] = 0x02;
    let mut contract = new_factory();
    let event = contract.createPair(AccountId::from(high), AccountId::from(low), id(0x50)).unwrap();
    assert_eq!(event.token0, AccountId::from(low));
    assert_eq!(event.token1, AccountId::from(high));
}

#[test]
fn the_administrator_names_the_recipient_of_fees() {
    let mut contract = new_factory();
    assert_eq!(contract.setFeeTo(id(0xad), id(0x11)), Ok(()));
    assert_eq!(contract.feeTo(), id(0x11));
    assert_eq!(contract.feeToSetter(), id(0xad));
}

#[test]
fn the_administrator_names_the_next_administrator() {
    let mut contract = new_factory();
    assert_eq!(contract.setFeeToSetter(id(0xad), id(0x12)), Ok(()));
    assert_eq!(contract.feeToSetter(), id(0x12));
    assert_eq!(contract.feeTo(), id(0xf0));
    assert_eq!(contract.setFeeTo(id(0xad), id(0x11)), Err(Error::Unauthorized));
    assert_eq!(contract.setFeeTo(id(0x12), id(0x11)), Ok(()));
    assert_eq!(contract.feeTo(), id(0x11));
}

#[test]
fn others_are_not_authorized() {
    let mut contract = new_factory();
    assert_eq!(contract.setFeeTo(id(0x01), id(0x11)), Err(Error::Unauthorized));
    assert_eq!(contract.setFeeTo(id(0xf0), id(0x11)), Err(Error::Unauthorized));
    assert_eq!(contract.setFeeToSetter(id(0x01), id(0x01)), Err(Error::Unauthorized));
    assert_eq!(contract.setFeeToSetter(AccountId::zero(), id(0x01)), Err(Error::Unauthorized));
    assert_eq!(contract.feeTo(), id(0xf0));
    assert_eq!(contract.feeToSetter(), id(0xad));
}

#[test]
fn fee_administration_leaves_the_pools_alone() {
    let mut contract = new_factory();
    assert!(contract.createPair(id(0x01), id(0x02), id(0x50)).is_ok());
    assert_eq!(contract.setFeeTo(id(0xad), id(0x11)), Ok(()));
    assert_eq!(contract.setFeeToSetter(id(0xad), id(0x12)), Ok(()));
    assert_eq!(contract.getPair(id(0x02), id(0x01)), Some(id(0x50)));
    assert_eq!(contract.allPairsLength(), 1);
}

#[test]
fn a_registry_lists_its_pools_in_the_order_of_creation() {
    let mut contract = new_factory();
    assert_eq!(contract.records(), vec![]);
    assert!(contract.createPair(id(0x02), id(0x01), id(0x50)).is_ok());
    assert!(contract.createPair(id(0x01), id(0x03), id(0x51)).is_ok());
    assert_eq!(contract.createPair(id(0x01), id(0x02), id(0x52)), Err(Error::PairExists));
    assert_eq!(
        contract.records(),
        vec![
            PairRecord { token0: id(0x01), token1: id(0x02), pair: id(0x50) },
            PairRecord { token0: id(0x01), token1: id(0x03), pair: id(0x51) },
        ]
    );
}

#[test]
fn a_registry_restored_from_its_pools_is_the_same_registry() {
    let mut contract = new_factory();
    assert!(contract.createPair(id(0x02), id(0x01), id(0x50)).is_ok());
    assert!(contract.createPair(id(0x01), id(0x03), id(0x51)).is_ok());
    assert_eq!(contract.setFeeTo(id(0xad), id(0x11)), Ok(()));
    let mut again = Factory::restore(contract.feeTo(), contract.feeToSetter(), &contract.records()).unwrap();
    assert_eq!(again.records(), contract.records());
    assert_eq!(again.feeTo(), id(0x11));
    assert_eq!(again.feeToSetter(), id(0xad));
    assert_eq!(again.allPairsLength(), 2);
    assert_eq!(again.allPairs(1), Some(id(0x51)));
    assert_eq!(again.getPair(id(0x02), id(0x01)), Some(id(0x50)));
    assert_eq!(again.getPair(id(0x03), id(0x01)), Some(id(0x51)));
    assert_eq!(again.createPair(id(0x03), id(0x01), id(0x52)), Err(Error::PairExists));
    assert_eq!(
        again.createPair(id(0x03), id(0x02), id(0x52)),
        Ok(PairCreated { token0: id(0x02), token1: id(0x03), pair: id(0x52), current_pair_length: 3 })
    );
}

#[test]
fn a_registry_is_not_restored_from_pools_that_would_be_refused() {
    let twice = vec![
        PairRecord { token0: id(0x01), token1: id(0x02), pair: id(0x50) },
        PairRecord { token0: id(0x02), token1: id(0x01), pair: id(0x51) },
    ];
    assert!(Factory::restore(id(0xf0), id(0xad), &twice).is_none());
    let identical = vec![PairRecord { token0: id(0x01), token1: id(0x01), pair: id(0x50) }];
    assert!(Factory::restore(id(0xf0), id(0xad), &identical).is_none());
    let null = vec![
        PairRecord { token0: id(0x01), token1: id(0x02), pair: id(0x50) },
        PairRecord { token0: id(0x03), token1: id(0x00), pair: id(0x51) },
        PairRecord { token0: id(0x03), token1: id(0x04), pair: id(0x52) },
    ];
    assert!(Factory::restore(id(0xf0), id(0xad), &null).is_none());
    let reversed = vec![PairRecord { token0: id(0x02), token1: id(0x01), pair: id(0x50) }];
    let registry = Factory::restore(id(0xf0), id(0xad), &reversed).unwrap();
    assert_eq!(registry.records(), vec![PairRecord { token0: id(0x01), token1: id(0x02), pair: id(0x50) }]);
    assert_eq!(registry.getPair(id(0x01), id(0x02)), Some(id(0x50)));
}
