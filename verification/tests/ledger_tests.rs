use amm_core::account::AccountId;
use amm_core::balances::Balances;
use amm_core::ledger::ShareLedger;
use amm_core::pair::Error;

fn id(byte: u8) -> AccountId {
    AccountId::from([byte; 32])
}

#[test]
fn a_new_book_holds_nothing() {
    let book = Balances::new();
    assert_eq!(book.get(&id(1)), 0);
    assert_eq!(book.get(&AccountId::zero()), 0);
}

#[test]
fn a_book_returns_what_was_recorded_last() {
    let mut book = Balances::new();
    book.insert(id(1), 10);
    book.insert(id(2), 20);
    assert_eq!(book.get(&id(1)), 10);
    assert_eq!(book.get(&id(2)), 20);
    assert_eq!(book.get(&id(3)), 0);
    book.insert(id(1), 11);
    assert_eq!(book.get(&id(1)), 11);
    assert_eq!(book.get(&id(2)), 20);
    book.insert(id(2), 0);
    assert_eq!(book.get(&id(2)), 0);
    assert_eq!(book.get(&id(1)), 11);
}

#[test]
fn a_new_ledger_has_no_shares() {
    let ledger = ShareLedger::new();
    assert_eq!(ledger.total_supply(), 0);
    assert_eq!(ledger.balance_of(&id(1)), 0);
}

#[test]
fn ledger_mint_adds_to_balance_and_supply() {
    let mut ledger = ShareLedger::new();
    assert_eq!(ledger.mint(id(1), 5), Ok(()));
    assert_eq!(ledger.mint(id(2), 7), Ok(()));
    assert_eq!(ledger.mint(id(1), 3), Ok(()));
    assert_eq!(ledger.balance_of(&id(1)), 8);
    assert_eq!(ledger.balance_of(&id(2)), 7);
    assert_eq!(ledger.balance_of(&id(3)), 0);
    assert_eq!(ledger.total_supply(), 15);
}

#[test]
fn ledger_mint_beyond_the_machine_word_is_refused() {
    let mut ledger = ShareLedger::new();
    assert_eq!(ledger.mint(id(1), u128::MAX - 1), Ok(()));
    assert_eq!(ledger.mint(id(2), 2), Err(Error::BalanceOverflow));
    assert_eq!(ledger.balance_of(&id(2)), 0);
    assert_eq!(ledger.total_supply(), u128::MAX - 1);
    assert_eq!(ledger.mint(id(2), 1), Ok(()));
    assert_eq!(ledger.total_supply(), u128::MAX);
    assert_eq!(ledger.mint(id(1), 1), Err(Error::BalanceOverflow));
    assert_eq!(ledger.balance_of(&id(1)), u128::MAX - 1);
}

#[test]
fn ledger_burn_is_the_inverse_of_mint() {
    let mut ledger = ShareLedger::new();
    assert_eq!(ledger.mint(id(1), 5), Ok(()));
    assert_eq!(ledger.mint(id(2), 7), Ok(()));
    assert_eq!(ledger.burn(id(1), 2), Ok(()));
    assert_eq!(ledger.balance_of(&id(1)), 3);
    assert_eq!(ledger.total_supply(), 10);
    assert_eq!(ledger.burn(id(1), 3), Ok(()));
    assert_eq!(ledger.balance_of(&id(1)), 0);
    assert_eq!(ledger.balance_of(&id(2)), 7);
    assert_eq!(ledger.total_supply(), 7);
    assert_eq!(ledger.burn(id(3), 0), Ok(()));
    assert_eq!(ledger.total_supply(), 7);
}

#[test]
fn ledger_burn_of_more_than_is_held_is_refused() {
    let mut ledger = ShareLedger::new();
    assert_eq!(ledger.mint(id(1), 5), Ok(()));
    assert_eq!(ledger.mint(id(2), 7), Ok(()));
    assert_eq!(ledger.burn(id(1), 6), Err(Error::InsufficientLiquidity));
    assert_eq!(ledger.burn(id(3), 1), Err(Error::InsufficientLiquidity));
    assert_eq!(ledger.balance_of(&id(1)), 5);
    assert_eq!(ledger.total_supply(), 12);
}

#[test]
fn ledger_transfer_keeps_the_supply() {
    let mut ledger = ShareLedger::new();
    assert_eq!(ledger.mint(id(1), 5), Ok(()));
    assert_eq!(ledger.transfer(id(1), id(2), 4), Ok(()));
    assert_eq!(ledger.balance_of(&id(1)), 1);
    assert_eq!(ledger.balance_of(&id(2)), 4);
    assert_eq!(ledger.total_supply(), 5);
    assert_eq!(ledger.transfer(id(2), id(2), 4), Ok(()));
    assert_eq!(ledger.balance_of(&id(2)), 4);
    assert_eq!(ledger.transfer(id(1), id(2), 2), Err(Error::InsufficientLiquidity));
    assert_eq!(ledger.balance_of(&id(1)), 1);
    assert_eq!(ledger.balance_of(&id(2)), 4);
    assert_eq!(ledger.total_supply(), 5);
}

#[test]
fn a_book_lists_each_account_once() {
    let mut book = Balances::new();
    book.insert(id(1), 10);
    book.insert(id(2), 20);
    book.insert(id(1), 11);
    book.insert(id(3), 0);
    let mut list = book.entries();
    list.sort_by_key(|line| line.0.bytes);
    assert_eq!(list, vec![(id(1), 11), (id(2), 20), (id(3), 0)]);
    assert_eq!(Balances::new().entries(), vec![]);
}

#[test]
fn a_book_made_from_lines_keeps_the_last_line_of_an_account() {
    let book = Balances::from_entries(&vec![(id(1), 10), (id(2), 20), (id(1), 7), (id(3), 1), (id(2), 0)]);
    assert_eq!(book.get(&id(1)), 7);
    assert_eq!(book.get(&id(2)), 0);
    assert_eq!(book.get(&id(3)), 1);
    assert_eq!(book.get(&id(4)), 0);
    assert_eq!(book.checked_sum(), Some(8));
    let again = Balances::from_entries(&book.entries());
    assert_eq!(again.get(&id(1)), 7);
    assert_eq!(again.get(&id(2)), 0);
    assert_eq!(again.get(&id(3)), 1);
    assert_eq!(again.checked_sum(), Some(8));
}

#[test]
fn the_sum_of_a_book_is_checked_against_overflow() {
    assert_eq!(Balances::new().checked_sum(), Some(0));
    let book = Balances::from_entries(&vec![(id(1), u128::MAX - 5), (id(2), 5)]);
    assert_eq!(book.checked_sum(), Some(u128::MAX));
    let book = Balances::from_entries(&vec![(id(1), u128::MAX - 5), (id(2), 6)]);
    assert_eq!(book.checked_sum(), None);
    let book = Balances::from_entries(&vec![(id(1), u128::MAX), (id(2), u128::MAX), (id(3), 2)]);
    assert_eq!(book.checked_sum(), None);
    // a replaced line does not count
    let book = Balances::from_entries(&vec![(id(1), u128::MAX), (id(1), 1), (id(2), 2)]);
    assert_eq!(book.checked_sum(), Some(3));
}

#[test]
fn a_ledger_made_from_its_holdings_is_the_same_ledger() {
    let mut ledger = ShareLedger::new();
    assert_eq!(ledger.mint(id(1), 5), Ok(()));
    assert_eq!(ledger.mint(id(2), 7), Ok(()));
    assert_eq!(ledger.burn(id(1), 5), Ok(()));
    let again = ShareLedger::from_holdings(&ledger.holdings()).unwrap();
    assert_eq!(again.total_supply(), 7);
    assert_eq!(again.balance_of(&id(1)), 0);
    assert_eq!(again.balance_of(&id(2)), 7);
    let mut sorted = again.holdings();
    sorted.sort_by_key(|line| line.0.bytes);
    assert_eq!(sorted, vec![(id(1), 0), (id(2), 7)]);
}

#[test]
fn a_ledger_is_not_made_from_holdings_that_overflow() {
    assert!(ShareLedger::from_holdings(&vec![(id(1), u128::MAX), (id(2), 1)]).is_none());
    let ledger = ShareLedger::from_holdings(&vec![(id(1), u128::MAX - 1), (id(2), 1)]).unwrap();
    assert_eq!(ledger.total_supply(), u128::MAX);
    let empty = ShareLedger::from_holdings(&vec![]).unwrap();
    assert_eq!(empty.total_supply(), 0);
    let replaced = ShareLedger::from_holdings(&vec![(id(1), 9), (id(1), 4)]).unwrap();
    assert_eq!(replaced.total_supply(), 4);
    assert_eq!(replaced.balance_of(&id(1)), 4);
}
