//! The deposit book of the routing layer.

use crate::account::AccountId;
use crate::balances::{amount_of, distinct_owners, recorded, Balances};
use crate::Balance;
use vstd::prelude::*;

verus! {

/// Fee rates are counted in parts of this number.
pub const FEE_LIMIT: u128 = 1_000;

/// Why a routing operation was refused.
#[derive(Debug, Clone, Copy, PartialEq, Eq, Structural)]
pub enum Error {
    /// Zero Liquidity
    ZeroLiquidity,
    /// Amount cannot be zero!
    ZeroAmount,
    /// Insufficient amount
    InsufficientAmount,
    /// Equivalent value of tokens not provided
    NonEquivalentValue,
    /// Asset value less than threshold for contribution!
    ThresholdNotReached,
    /// Share should be less than totalShare
    InvalidShare,
    /// Insufficient pool balance
    InsufficientLiquidity,
    /// Slippage tolerance exceeded
    SlippageExceeded,
}

/// The routing layer: its fee rate, and what each account has paid in. The
/// view is a [`RouterView`].
pub struct Router {
    token1Balance: Balances,
    fees: Balance,
}

/// The state of the routing layer.
#[verifier::ext_equal]
pub struct RouterView {
    pub fees: nat,
    pub token1_balance: Map<Seq<u8>, nat>,
}

impl RouterView {
    /// What `account` has paid in.
    pub open spec fn deposited(self, account: Seq<u8>) -> nat {
        amount_of(self.token1_balance, account)
    }

    /// The state after `caller` paid in `value`.
    pub open spec fn after_deposit(self, caller: Seq<u8>, value: nat) -> RouterView {
        RouterView {
            token1_balance: self.token1_balance.insert(caller, self.deposited(caller) + value),
            ..self
        }
    }
}

impl View for Router {
    type V = RouterView;

    closed spec fn view(&self) -> RouterView {
        RouterView { fees: self.fees as nat, token1_balance: self.token1Balance@ }
    }
}

impl Router {
    /// The book is consistent.
    pub closed spec fn wf(&self) -> bool {
        self.token1Balance.wf()
    }

    /// A routing layer that charges `_fees` parts in `FEE_LIMIT`, and
    /// nothing where `_fees` is not below `FEE_LIMIT`.
    pub fn new(_fees: Balance) -> (router: Router)
        ensures
            router.wf(),
            router@.fees == (if _fees >= FEE_LIMIT {
                0
            } else {
                _fees
            }),
            router@.token1_balance == Map::<Seq<u8>, nat>::empty(),
    {
        Router {
            token1Balance: Balances::new(),
            fees: if _fees >= FEE_LIMIT {
                0
            } else {
                _fees
            },
        }
    }

    /// The fee rate.
    pub fn fees(&self) -> (fees: Balance)
        ensures
            fees == self@.fees,
    {
        self.fees
    }

    /// Credits `caller` with the payment `transferred`.
    pub fn deposit(&mut self, caller: AccountId, transferred: Balance)
        requires
            old(self).wf(),
            old(self)@.deposited(caller@) + transferred <= u128::MAX,
        ensures
            final(self).wf(),
            final(self)@ == old(self)@.after_deposit(caller@, transferred as nat),
    {
        let token1: Balance = self.token1Balance.get(&caller);
        self.token1Balance.insert(caller, token1 + transferred);
    }

    /// What `caller` has paid in.
    pub fn getTest(&self, caller: AccountId) -> (deposited: Balance)
        requires
            self.wf(),
        ensures
            deposited == self@.deposited(caller@),
    {
        self.token1Balance.get(&caller)
    }

    /// What each account has paid in: each account with an entry once. A
    /// routing layer made of them, with the same fee rate, is this one
    /// again.
    pub fn deposits(&self) -> (list: Vec<(AccountId, Balance)>)
        requires
            self.wf(),
        ensures
            distinct_owners(list@),
            recorded(list@) == self@.token1_balance,
    {
        self.token1Balance.entries()
    }

    /// The routing layer with the fee rate `_fees`, as `new` takes it, in
    /// which the accounts of `list` have paid in the amounts given with
    /// them, a later line replacing an earlier one.
    pub fn restore(_fees: Balance, list: &Vec<(AccountId, Balance)>) -> (router: Router)
        ensures
            router.wf(),
            router@.fees == (if _fees >= FEE_LIMIT {
                0
            } else {
                _fees
            }),
            router@.token1_balance == recorded(list@),
    {
        Router {
            token1Balance: Balances::from_entries(list),
            fees: if _fees >= FEE_LIMIT {
                0
            } else {
                _fees
            },
        }
    }
}

} // verus!
