//! The ledger of pool shares: who owns how many, and how many there are.

use crate::account::AccountId;
use crate::balances::{amount_of, distinct_owners, recorded, recorded_sum, sum_of_amounts, Balances};
use crate::math::minus;
use crate::pair::Error;
use crate::Balance;
use vstd::prelude::*;

verus! {

/// The shares of one pool. The view is a [`LedgerView`]; in a well-formed
/// ledger the share balances add up to the total supply.
pub struct ShareLedger {
    total_supply: Balance,
    balances: Balances,
}

/// What a ledger holds: the total supply, and the balance of each owner that
/// has an entry.
#[verifier::ext_equal]
pub struct LedgerView {
    pub total_supply: nat,
    pub balances: Map<Seq<u8>, nat>,
}

impl LedgerView {
    /// The ledger whose share balances are the lines of `list`, written one
    /// after the other, and whose total supply is their sum.
    pub open spec fn of(list: Seq<(AccountId, Balance)>) -> LedgerView {
        LedgerView { total_supply: recorded_sum(list), balances: recorded(list) }
    }

    /// A ledger without shares.
    pub open spec fn empty() -> LedgerView {
        LedgerView { total_supply: 0, balances: Map::empty() }
    }

    /// The shares that `owner` holds: none where the ledger has no entry.
    pub open spec fn balance_of(self, owner: Seq<u8>) -> nat {
        amount_of(self.balances, owner)
    }

    /// Issuing `amount` shares is refused only where the total supply would
    /// leave the machine word.
    pub open spec fn mint_result(self, amount: nat) -> Result<(), Error> {
        if self.total_supply + amount > u128::MAX {
            Err(Error::BalanceOverflow)
        } else {
            Ok(())
        }
    }

    /// The ledger after `amount` shares were issued to `owner`.
    pub open spec fn minted(self, owner: Seq<u8>, amount: nat) -> LedgerView {
        LedgerView {
            total_supply: self.total_supply + amount,
            balances: self.balances.insert(owner, self.balance_of(owner) + amount),
        }
    }

    /// Cancelling `amount` shares of `owner` is refused where `owner` holds
    /// fewer.
    pub open spec fn burn_result(self, owner: Seq<u8>, amount: nat) -> Result<(), Error> {
        if amount > self.balance_of(owner) {
            Err(Error::InsufficientLiquidity)
        } else {
            Ok(())
        }
    }

    /// The ledger after `amount` shares of `owner` were cancelled.
    pub open spec fn burned(self, owner: Seq<u8>, amount: nat) -> LedgerView {
        LedgerView {
            total_supply: minus(self.total_supply, amount),
            balances: self.balances.insert(owner, minus(self.balance_of(owner), amount)),
        }
    }

    /// Moving `amount` shares away from `from` is refused where `from` holds
    /// fewer.
    pub open spec fn transfer_result(self, from: Seq<u8>, amount: nat) -> Result<(), Error> {
        self.burn_result(from, amount)
    }

    /// The ledger after `amount` shares moved from `from` to `to`: the total
    /// supply is what it was.
    pub open spec fn transferred(self, from: Seq<u8>, to: Seq<u8>, amount: nat) -> LedgerView {
        let debited = self.balances.insert(from, minus(self.balance_of(from), amount));
        LedgerView { balances: debited.insert(to, amount_of(debited, to) + amount), ..self }
    }
}

impl View for ShareLedger {
    type V = LedgerView;

    closed spec fn view(&self) -> LedgerView {
        LedgerView { total_supply: self.total_supply as nat, balances: self.balances@ }
    }
}

impl ShareLedger {
    /// The sum of all share balances.
    pub closed spec fn sum_of_balances(&self) -> nat {
        self.balances.sum()
    }

    /// The ledger is consistent: the share balances add up to the total
    /// supply.
    pub closed spec fn wf(&self) -> bool {
        &&& self.balances.wf()
        &&& self.balances.sum() == self.total_supply
    }

    /// In a well-formed ledger the balances add up to the total supply, which
    /// fits the machine word, and no owner holds more than there is.
    pub proof fn lemma_wf(&self, owner: Seq<u8>)
        requires
            self.wf(),
        ensures
            self.sum_of_balances() == self@.total_supply,
            self@.total_supply <= u128::MAX,
            self@.balance_of(owner) <= self@.total_supply,
    {
        self.balances.lemma_amount_le_sum(owner);
    }

    /// A ledger without shares.
    pub fn new() -> (ledger: ShareLedger)
        ensures
            ledger.wf(),
            ledger@ == LedgerView::empty(),
    {
        ShareLedger { total_supply: 0, balances: Balances::new() }
    }

    /// The number of shares in existence.
    pub fn total_supply(&self) -> (total: Balance)
        ensures
            total == self@.total_supply,
    {
        self.total_supply
    }

    /// The shares that `owner` holds.
    pub fn balance_of(&self, owner: &AccountId) -> (amount: Balance)
        requires
            self.wf(),
        ensures
            amount == self@.balance_of(owner@),
    {
        self.balances.get(owner)
    }

    /// Issues `amount` new shares to `owner`.
    pub fn mint(&mut self, owner: AccountId, amount: Balance) -> (result: Result<(), Error>)
        requires
            old(self).wf(),
        ensures
            final(self).wf(),
            final(self).sum_of_balances() == final(self)@.total_supply,
            result == old(self)@.mint_result(amount as nat),
            result.is_ok() ==> final(self)@ == old(self)@.minted(owner@, amount as nat),
            result.is_err() ==> final(self)@ == old(self)@,
    {
        match self.total_supply.checked_add(amount) {
            None => Err(Error::BalanceOverflow),
            Some(total) => {
                proof {
                    self.balances.lemma_amount_le_sum(owner@);
                }
                let held: Balance = self.balances.get(&owner);
                self.balances.insert(owner, held + amount);
                self.total_supply = total;
                Ok(())
            },
        }
    }

    /// Cancels `amount` shares that `owner` holds.
    pub fn burn(&mut self, owner: AccountId, amount: Balance) -> (result: Result<(), Error>)
        requires
            old(self).wf(),
        ensures
            final(self).wf(),
            final(self).sum_of_balances() == final(self)@.total_supply,
            result == old(self)@.burn_result(owner@, amount as nat),
            result.is_ok() ==> final(self)@ == old(self)@.burned(owner@, amount as nat),
            result.is_err() ==> final(self)@ == old(self)@,
    {
        let held: Balance = self.balances.get(&owner);
        if amount > held {
            return Err(Error::InsufficientLiquidity);
        }
        proof {
            self.balances.lemma_amount_le_sum(owner@);
        }
        self.balances.insert(owner, held - amount);
        self.total_supply = self.total_supply - amount;
        Ok(())
    }

    /// Moves `amount` shares from `from` to `to`.
    pub fn transfer(&mut self, from: AccountId, to: AccountId, amount: Balance) -> (result: Result<
        (),
        Error,
    >)
        requires
            old(self).wf(),
        ensures
            final(self).wf(),
            final(self).sum_of_balances() == final(self)@.total_supply,
            result == old(self)@.transfer_result(from@, amount as nat),
            result.is_ok() ==> final(self)@ == old(self)@.transferred(from@, to@, amount as nat),
            result.is_err() ==> final(self)@ == old(self)@,
    {
        let held: Balance = self.balances.get(&from);
        if amount > held {
            return Err(Error::InsufficientLiquidity);
        }
        proof {
            self.balances.lemma_amount_le_sum(from@);
        }
        self.balances.insert(from, held - amount);
        proof {
            self.balances.lemma_amount_le_sum(to@);
        }
        let credited: Balance = self.balances.get(&to);
        self.balances.insert(to, credited + amount);
        Ok(())
    }

    /// The share balances: each owner with an entry once, with the shares
    /// held. A ledger made of them is this ledger again.
    pub fn holdings(&self) -> (list: Vec<(AccountId, Balance)>)
        requires
            self.wf(),
        ensures
            distinct_owners(list@),
            LedgerView::of(list@) == self@,
            sum_of_amounts(list@) == self@.total_supply,
    {
        self.balances.entries()
    }

    /// The ledger whose share balances are the lines of `list`, written one
    /// after the other; `None` where their sum does not fit the machine
    /// word.
    pub fn from_holdings(list: &Vec<(AccountId, Balance)>) -> (ledger: Option<ShareLedger>)
        ensures
            match ledger {
                Some(l) => l.wf() && l@ == LedgerView::of(list@),
                None => recorded_sum(list@) > u128::MAX,
            },
    {
        let balances = Balances::from_entries(list);
        match balances.checked_sum() {
            Some(total_supply) => Some(ShareLedger { total_supply, balances }),
            None => None,
        }
    }
}

} // verus!
