use amm_core::account::AccountId;
use amm_core::router::Router;

fn alice() -> AccountId {
    AccountId::from([0x01; 32])
}

fn bob() -> AccountId {
    AccountId::from([0x02; 32])
}

#[test]
fn should_initialize_with_default_setting() {
    let mut contract = Router::new(0);
    let bal: u128 = 100;
    println!("Balance: {}", bal);

    contract.deposit(alice(), 101);

    let temp = contract.getTest(alice());
    println!("TEST: {}", temp);
    assert_eq!(temp, 101);
    assert_eq!(contract.fees(), 0);
}

#[test]
fn fees_out_of_range_are_set_to_zero() {
    assert_eq!(Router::new(999).fees(), 999);
    assert_eq!(Router::new(1000).fees(), 0);
    assert_eq!(Router::new(1001).fees(), 0);
    assert_eq!(Router::new(u128::MAX).fees(), 0);
    assert_eq!(Router::new(30).fees(), 30);
}

#[test]
fn deposits_add_up_per_account() {
    let mut contract = Router::new(3);
    assert_eq!(contract.getTest(alice()), 0);
    contract.deposit(alice(), 5);
    contract.deposit(bob(), 7);
    contract.deposit(alice(), 6);
    contract.deposit(bob(), 0);
    assert_eq!(contract.getTest(alice()), 11);
    assert_eq!(contract.getTest(bob()), 7);
    assert_eq!(contract.getTest(AccountId::zero()), 0);
    contract.deposit(alice(), u128::MAX - 11);
    assert_eq!(contract.getTest(alice()), u128::MAX);
}

#[test]
fn a_router_restored_from_its_deposits_is_the_same_router() {
    let mut contract = Router::new(30);
    contract.deposit(alice(), 5);
    contract.deposit(bob(), 7);
    contract.deposit(alice(), 6);
    let mut list = contract.deposits();
    list.sort_by_key(|line| line.0.bytes);
    assert_eq!(list, vec![(alice(), 11), (bob(), 7)]);
    let again = Router::restore(contract.fees(), &contract.deposits());
    assert_eq!(again.fees(), 30);
    assert_eq!(again.getTest(alice()), 11);
    assert_eq!(again.getTest(bob()), 7);
    assert_eq!(Router::restore(1000, &vec![]).fees(), 0);
    assert_eq!(Router::restore(5, &vec![(alice(), 1), (alice(), 2)]).getTest(alice()), 2);
}
