//! The liquidity pool of one pair of assets.
//!
//! A pool never calls out. Whoever drives it acquires the pool's lock with
//! [`Pair::try_enter`], asks the two assets for the pool's balances, and hands
//! them to [`Pair::mint`], [`Pair::burn`] or [`Pair::swap`], which decide,
//! commit or refuse, and release the lock. These three take what
//! `try_enter` hands out, so that none of them runs for a caller who did not
//! acquire the lock.

pub mod laws;
pub mod view;

pub use self::view::{
    adjusted_balance, amount_in, is_outcome, is_payout, liquidity_for, saturated, scaled_price, PairView,
};

use crate::account::AccountId;
use crate::balances::{distinct_owners, sum_of_amounts};
use crate::ledger::{LedgerView, ShareLedger};
use crate::math::{checked_mul_div, fee_of, lemma_share_bounded, sqrt};
use crate::{Balance, Timestamp};
use vstd::prelude::*;

verus! {

/// Scale of share amounts and of prices: six decimal places.
pub const PRECISION: u128 = 1_000_000;

/// Shares, before scaling, that the first deposit locks for ever.
pub const MINIMUM_LIQUIDITY: u128 = 1_000;

/// The largest reserve a pool records: the largest 64-bit number, so that a
/// reserve times `PRECISION` always fits the machine word.
pub const MAX_BAL: u128 = 18_446_744_073_709_551_615;

/// Trading fees are counted in parts of this number.
pub const FEE_DENOMINATOR: u128 = 1_000;

/// Why a pool operation was refused.
#[derive(Debug, Clone, Copy, PartialEq, Eq, Structural)]
pub enum Error {
    AlreadyInitialized,
    BalanceOverflow,
    InsufficientInputAmount,
    InsufficientLiquidity,
    InsufficientLiquidityBurned,
    InsufficientLiquidityMinted,
    InsufficientOutputAmount,
    InvalidK,
    TransferFailed,
}

/// The pool of one pair of assets: its reserves, its price accumulators, its
/// lock and the ledger of its shares. The view is a [`PairView`].
pub struct Pair {
    token0: AccountId,
    token1: AccountId,
    reserve0: Balance,
    reserve1: Balance,
    blockTimestampLast: Timestamp,
    price0CumulativeLast: Balance,
    price1CumulativeLast: Balance,
    isEntered: bool,
    factory: AccountId,
    account_id: AccountId,
    fee: Balance,
    shares: ShareLedger,
}

/// Leave to run one operation on a pool: what [`Pair::try_enter`] hands out
/// when it has acquired the pool's lock. The operation that takes it
/// releases the lock.
#[must_use]
pub struct Entered {
    held: bool,
}

/// All that a pool holds, as plain values: what is kept of a pool between
/// two operations. The view is the state that it describes.
#[derive(Debug, PartialEq, Eq)]
pub struct PairSnapshot {
    pub token0: AccountId,
    pub token1: AccountId,
    pub factory: AccountId,
    pub account_id: AccountId,
    pub fee: Balance,
    pub reserve0: Balance,
    pub reserve1: Balance,
    pub blockTimestampLast: Timestamp,
    pub price0CumulativeLast: Balance,
    pub price1CumulativeLast: Balance,
    pub isEntered: bool,
    pub holdings: Vec<(AccountId, Balance)>,
}

impl View for PairSnapshot {
    type V = PairView;

    open spec fn view(&self) -> PairView {
        PairView {
            token0: self.token0@,
            token1: self.token1@,
            factory: self.factory@,
            account_id: self.account_id@,
            fee: self.fee as nat,
            reserve0: self.reserve0 as nat,
            reserve1: self.reserve1 as nat,
            block_timestamp_last: self.blockTimestampLast as nat,
            price0_cumulative_last: self.price0CumulativeLast as nat,
            price1_cumulative_last: self.price1CumulativeLast as nat,
            is_entered: self.isEntered,
            shares: LedgerView::of(self.holdings@),
        }
    }
}

/// Computes the shares that a deposit earns.
pub fn quote_liquidity(
    total_supply: Balance,
    reserve0: Balance,
    reserve1: Balance,
    amount0: Balance,
    amount1: Balance,
) -> (result: Result<Balance, Error>)
    ensures
        is_outcome(
            result,
            liquidity_for(
                total_supply as nat,
                reserve0 as nat,
                reserve1 as nat,
                amount0 as nat,
                amount1 as nat,
            ),
        ),
{
    if total_supply == 0 {
        match amount0.checked_mul(amount1) {
            None => Err(Error::BalanceOverflow),
            Some(product) => {
                let root: Balance = sqrt(product);
                if root <= MINIMUM_LIQUIDITY {
                    Err(Error::InsufficientLiquidityMinted)
                } else {
                    assert(root <= 0xffff_ffff_ffff_ffff) by (nonlinear_arith)
                        requires
                            root * root <= u128::MAX,
                    ;
                    Ok((root - MINIMUM_LIQUIDITY) * PRECISION)
                }
            },
        }
    } else {
        let share0: Option<Balance> = checked_mul_div(amount0, total_supply, reserve0);
        let share1: Option<Balance> = checked_mul_div(amount1, total_supply, reserve1);
        match (share0, share1) {
            (Some(s0), Some(s1)) => {
                let liquidity: Balance = if s0 <= s1 {
                    s0
                } else {
                    s1
                };
                if liquidity == 0 {
                    Err(Error::InsufficientLiquidityMinted)
                } else {
                    Ok(liquidity)
                }
            },
            _ => Err(Error::BalanceOverflow),
        }
    }
}

impl View for Pair {
    type V = PairView;

    closed spec fn view(&self) -> PairView {
        PairView {
            token0: self.token0@,
            token1: self.token1@,
            factory: self.factory@,
            account_id: self.account_id@,
            fee: self.fee as nat,
            reserve0: self.reserve0 as nat,
            reserve1: self.reserve1 as nat,
            block_timestamp_last: self.blockTimestampLast as nat,
            price0_cumulative_last: self.price0CumulativeLast as nat,
            price1_cumulative_last: self.price1CumulativeLast as nat,
            is_entered: self.isEntered,
            shares: self.shares@,
        }
    }
}

impl Pair {
    /// The sum of all share balances of the pool.
    pub closed spec fn sum_of_balances(&self) -> nat {
        self.shares.sum_of_balances()
    }

    /// The pool is consistent: its state is well-formed, and its share
    /// balances add up to its total supply.
    pub closed spec fn wf(&self) -> bool {
        &&& self@.wf()
        &&& self.shares.wf()
    }

    /// In a well-formed pool the state is well-formed, every number fits its
    /// machine word, the share balances add up to the total supply, and no
    /// owner holds more shares than there are.
    pub proof fn lemma_wf(&self, owner: Seq<u8>)
        requires
            self.wf(),
        ensures
            self@.wf(),
            self.sum_of_balances() == self@.shares.total_supply,
            self@.shares.total_supply <= u128::MAX,
            self@.shares.balance_of(owner) <= self@.shares.total_supply,
            self@.block_timestamp_last <= u64::MAX,
            self@.price0_cumulative_last <= u128::MAX,
            self@.price1_cumulative_last <= u128::MAX,
    {
        self.shares.lemma_wf(owner);
    }

    /// Creates the pool of `token0` and `token1`, owned by the registry
    /// `factory`, under the pool's own address `account_id`, charging `fee`
    /// parts in `FEE_DENOMINATOR` on what a trade pays in.
    pub fn initialize(
        token0: AccountId,
        token1: AccountId,
        factory: AccountId,
        account_id: AccountId,
        fee: Balance,
    ) -> (pool: Pair)
        ensures
            pool.wf(),
            pool@ == PairView::initial(token0@, token1@, factory@, account_id@, fee as nat),
    {
        Pair {
            token0,
            token1,
            reserve0: 0,
            reserve1: 0,
            blockTimestampLast: 0,
            price0CumulativeLast: 0,
            price1CumulativeLast: 0,
            isEntered: false,
            factory,
            account_id,
            fee: if fee >= FEE_DENOMINATOR {
                0
            } else {
                fee
            },
            shares: ShareLedger::new(),
        }
    }

    /// All that the pool holds, as plain values.
    pub fn snapshot(&self) -> (snapshot: PairSnapshot)
        requires
            self.wf(),
        ensures
            snapshot@ == self@,
            snapshot@.wf(),
            snapshot@.shares.total_supply <= u128::MAX,
            distinct_owners(snapshot.holdings@),
            sum_of_amounts(snapshot.holdings@) == self@.shares.total_supply,
    {
        proof {
            self.shares.lemma_wf(self.account_id@);
        }
        PairSnapshot {
            token0: self.token0,
            token1: self.token1,
            factory: self.factory,
            account_id: self.account_id,
            fee: self.fee,
            reserve0: self.reserve0,
            reserve1: self.reserve1,
            blockTimestampLast: self.blockTimestampLast,
            price0CumulativeLast: self.price0CumulativeLast,
            price1CumulativeLast: self.price1CumulativeLast,
            isEntered: self.isEntered,
            holdings: self.shares.holdings(),
        }
    }

    /// The pool that `snapshot` describes; `None` where it describes none: a
    /// reserve exceeds `MAX_BAL`, the fee rate is not below
    /// `FEE_DENOMINATOR`, or the shares do not fit the machine word. A pool
    /// that was locked when the snapshot was taken is locked: the operation
    /// that holds its lock is elsewhere.
    pub fn restore(snapshot: &PairSnapshot) -> (pool: Option<Pair>)
        ensures
            pool.is_some() == (snapshot@.wf() && snapshot@.shares.total_supply <= u128::MAX),
            pool matches Some(p) ==> p.wf() && p@ == snapshot@,
    {
        if snapshot.reserve0 > MAX_BAL || snapshot.reserve1 > MAX_BAL || snapshot.fee
            >= FEE_DENOMINATOR {
            return None;
        }
        match ShareLedger::from_holdings(&snapshot.holdings) {
            None => None,
            Some(shares) => {
                proof {
                    shares.lemma_wf(snapshot.account_id@);
                }
                Some(
                    Pair {
                        token0: snapshot.token0,
                        token1: snapshot.token1,
                        reserve0: snapshot.reserve0,
                        reserve1: snapshot.reserve1,
                        blockTimestampLast: snapshot.blockTimestampLast,
                        price0CumulativeLast: snapshot.price0CumulativeLast,
                        price1CumulativeLast: snapshot.price1CumulativeLast,
                        isEntered: snapshot.isEntered,
                        factory: snapshot.factory,
                        account_id: snapshot.account_id,
                        fee: snapshot.fee,
                        shares,
                    },
                )
            },
        }
    }

    /// Acquires the pool's lock for one operation. Where the lock is held
    /// already, by an operation that has not finished, nothing changes and
    /// the answer is `None`.
    pub fn try_enter(&mut self) -> (acquired: Option<Entered>)
        ensures
            acquired.is_some() == old(self)@.can_enter(),
            final(self)@ == old(self)@.after_try_enter(),
            old(self).wf() ==> final(self).wf(),
            final(self).sum_of_balances() == old(self).sum_of_balances(),
    {
        if self.isEntered {
            None
        } else {
            self.isEntered = true;
            Some(Entered { held: true })
        }
    }

    /// Releases the pool's lock and changes nothing else: the way out of an
    /// operation that is given up before the pool was asked to commit it.
    pub fn exit(&mut self, _entered: Entered)
        ensures
            final(self)@ == old(self)@.released(),
            old(self).wf() ==> final(self).wf(),
            final(self).sum_of_balances() == old(self).sum_of_balances(),
    {
        self.isEntered = false;
    }

    /// The shares that `owner` holds.
    pub fn balance_of(&self, owner: AccountId) -> (amount: Balance)
        requires
            self.wf(),
        ensures
            amount == self@.shares.balance_of(owner@),
    {
        self.shares.balance_of(&owner)
    }

    /// The number of shares in existence.
    pub fn total_supply(&self) -> (total: Balance)
        ensures
            total == self@.shares.total_supply,
    {
        self.shares.total_supply()
    }

    /// The pool's own address.
    pub fn getAccountId(&self) -> (id: AccountId)
        ensures
            id@ == self@.account_id,
    {
        self.account_id
    }

    /// The first asset of the pool.
    pub fn token0(&self) -> (id: AccountId)
        ensures
            id@ == self@.token0,
    {
        self.token0
    }

    /// The second asset of the pool.
    pub fn token1(&self) -> (id: AccountId)
        ensures
            id@ == self@.token1,
    {
        self.token1
    }

    /// The registry that created the pool.
    pub fn factory(&self) -> (id: AccountId)
        ensures
            id@ == self@.factory,
    {
        self.factory
    }

    /// The fee rate, in parts of `FEE_DENOMINATOR`.
    pub fn fee(&self) -> (rate: Balance)
        ensures
            rate == self@.fee,
    {
        self.fee
    }

    /// The two price accumulators.
    pub fn priceCumulativeLast(&self) -> (prices: (Balance, Balance))
        ensures
            prices.0 == self@.price0_cumulative_last,
            prices.1 == self@.price1_cumulative_last,
    {
        (self.price0CumulativeLast, self.price1CumulativeLast)
    }

    /// Whether an operation holds the lock.
    pub fn isEntered(&self) -> (held: bool)
        ensures
            held == self@.is_entered,
    {
        self.isEntered
    }

    /// The reserves and the time of the last update.
    pub fn getReserves(&self) -> (reserves: (Balance, Balance, Timestamp))
        ensures
            reserves.0 == self@.reserve0,
            reserves.1 == self@.reserve1,
            reserves.2 == self@.block_timestamp_last,
    {
        (self.reserve0, self.reserve1, self.blockTimestampLast)
    }

    /// Moves `amount` shares from `from` to `to`: to the pool's own address
    /// where they are to be withdrawn. The shares of the null account do not
    /// move.
    pub fn transfer(&mut self, from: AccountId, to: AccountId, amount: Balance) -> (result: Result<
        (),
        Error,
    >)
        requires
            old(self).wf(),
        ensures
            final(self).wf(),
            final(self).sum_of_balances() == final(self)@.shares.total_supply,
            result == old(self)@.transfer_result(from@, amount as nat),
            final(self)@ == old(self)@.after_transfer(from@, to@, amount as nat),
    {
        proof {
            self.shares.lemma_wf(from@);
        }
        if amount > 0 && from.is_zero() {
            return Err(Error::InsufficientLiquidity);
        }
        self.shares.transfer(from, to, amount)
    }

    /// Handles a deposit to the credit of `to`, for the caller who acquired
    /// the lock, and releases the lock. `balance0` and `balance1` are the
    /// pool's balances of its two assets as the assets report them, after the
    /// deposit was transferred in; `now` is the current time. Returns the
    /// shares issued to `to`.
    pub fn mint(
        &mut self,
        _entered: Entered,
        to: AccountId,
        balance0: Balance,
        balance1: Balance,
        now: Timestamp,
    ) -> (result: Result<Balance, Error>)
        requires
            old(self).wf(),
        ensures
            final(self).wf(),
            final(self).sum_of_balances() == final(self)@.shares.total_supply,
            is_outcome(result, old(self)@.mint_result(balance0 as nat, balance1 as nat)),
            final(self)@ == old(self)@.after_mint(to@, balance0 as nat, balance1 as nat, now as nat),
    {
        proof {
            self.shares.lemma_wf(to@);
        }
        let reserves: (Balance, Balance, Timestamp) = self.getReserves();
        let reserve0_: Balance = reserves.0;
        let reserve1_: Balance = reserves.1;
        if balance0 < reserve0_ || balance1 < reserve1_ {
            self.isEntered = false;
            return Err(Error::BalanceOverflow);
        }
        let amount0: Balance = balance0 - reserve0_;
        let amount1: Balance = balance1 - reserve1_;
        let total: Balance = self.shares.total_supply();
        let liquidity: Balance = match quote_liquidity(total, reserve0_, reserve1_, amount0, amount1) {
            Ok(liquidity) => liquidity,
            Err(e) => {
                self.isEntered = false;
                return Err(e);
            },
        };
        let locked: Balance = if total == 0 {
            MINIMUM_LIQUIDITY * PRECISION
        } else {
            0
        };
        let fits: bool = match total.checked_add(locked) {
            Some(with_locked) => with_locked.checked_add(liquidity).is_some(),
            None => false,
        };
        if !fits || balance0 > MAX_BAL || balance1 > MAX_BAL {
            self.isEntered = false;
            return Err(Error::BalanceOverflow);
        }
        if total == 0 {
            let _locking = self.shares.mint(AccountId::zero(), locked);
        }
        let _issuing = self.shares.mint(to, liquidity);
        let _recording = self._update(balance0, balance1, reserve0_, reserve1_, now);
        self.isEntered = false;
        Ok(liquidity)
    }

    /// Handles a withdrawal of the shares that their owner has sent to the
    /// pool, for the caller who acquired the lock, and releases the lock.
    /// `balance0` and `balance1` are the pool's balances of its two assets as
    /// the assets report them; `now` is the current time. Returns the amounts
    /// of the two assets that the caller is to pay out.
    pub fn burn(&mut self, _entered: Entered, balance0: Balance, balance1: Balance, now: Timestamp) -> (result:
        Result<(Balance, Balance), Error>)
        requires
            old(self).wf(),
        ensures
            final(self).wf(),
            final(self).sum_of_balances() == final(self)@.shares.total_supply,
            is_payout(result, old(self)@.burn_result(balance0 as nat, balance1 as nat)),
            final(self)@ == old(self)@.after_burn(balance0 as nat, balance1 as nat, now as nat),
    {
        proof {
            self.shares.lemma_wf(self.account_id@);
        }
        let total: Balance = self.shares.total_supply();
        if total == 0 {
            self.isEntered = false;
            return Err(Error::InsufficientLiquidityBurned);
        }
        let shares: Balance = self.shares.balance_of(&self.account_id);
        let amount0: Balance = match checked_mul_div(shares, balance0, total) {
            Some(amount) => amount,
            None => {
                self.isEntered = false;
                return Err(Error::BalanceOverflow);
            },
        };
        let amount1: Balance = match checked_mul_div(shares, balance1, total) {
            Some(amount) => amount,
            None => {
                self.isEntered = false;
                return Err(Error::BalanceOverflow);
            },
        };
        if amount0 == 0 || amount1 == 0 {
            self.isEntered = false;
            return Err(Error::InsufficientLiquidityBurned);
        }
        proof {
            lemma_share_bounded(shares as nat, balance0 as nat, total as nat);
            lemma_share_bounded(shares as nat, balance1 as nat, total as nat);
        }
        let left0: Balance = balance0 - amount0;
        let left1: Balance = balance1 - amount1;
        if left0 > MAX_BAL || left1 > MAX_BAL {
            self.isEntered = false;
            return Err(Error::BalanceOverflow);
        }
        let reserve0_: Balance = self.reserve0;
        let reserve1_: Balance = self.reserve1;
        let _cancelling = self.shares.burn(self.account_id, shares);
        let _recording = self._update(left0, left1, reserve0_, reserve1_, now);
        self.isEntered = false;
        Ok((amount0, amount1))
    }

    /// Tests the amounts that a trade asks for, before anything is paid out.
    pub fn check_outputs(&self, amount0_out: Balance, amount1_out: Balance) -> (result: Result<(), Error>)
        ensures
            result == self@.outputs_result(amount0_out as nat, amount1_out as nat),
    {
        if amount0_out == 0 && amount1_out == 0 {
            Err(Error::InsufficientOutputAmount)
        } else if amount0_out > self.reserve0 || amount1_out > self.reserve1 {
            Err(Error::InsufficientLiquidity)
        } else {
            Ok(())
        }
    }

    /// Handles a trade that paid out `amount0_out` and `amount1_out`, for the
    /// caller who acquired the lock, and releases the lock. `balance0` and
    /// `balance1` are the pool's balances of its two assets as the assets
    /// report them after the payout; `now` is the current time.
    pub fn swap(
        &mut self,
        _entered: Entered,
        amount0_out: Balance,
        amount1_out: Balance,
        balance0: Balance,
        balance1: Balance,
        now: Timestamp,
    ) -> (result: Result<(), Error>)
        requires
            old(self).wf(),
        ensures
            final(self).wf(),
            final(self).sum_of_balances() == old(self).sum_of_balances(),
            result == old(self)@.swap_result(
                amount0_out as nat,
                amount1_out as nat,
                balance0 as nat,
                balance1 as nat,
            ),
            final(self)@ == old(self)@.after_swap(
                amount0_out as nat,
                amount1_out as nat,
                balance0 as nat,
                balance1 as nat,
                now as nat,
            ),
    {
        match self.check_outputs(amount0_out, amount1_out) {
            Err(e) => {
                self.isEntered = false;
                return Err(e);
            },
            Ok(_) => {},
        }
        let reserve0_: Balance = self.reserve0;
        let reserve1_: Balance = self.reserve1;
        let paid0: Balance = if balance0 > reserve0_ - amount0_out {
            balance0 - (reserve0_ - amount0_out)
        } else {
            0
        };
        let paid1: Balance = if balance1 > reserve1_ - amount1_out {
            balance1 - (reserve1_ - amount1_out)
        } else {
            0
        };
        let adjusted0: Balance = balance0 - fee_of(paid0, self.fee, FEE_DENOMINATOR);
        let adjusted1: Balance = balance1 - fee_of(paid1, self.fee, FEE_DENOMINATOR);
        assert(reserve0_ * reserve1_ <= MAX_BAL * MAX_BAL) by (nonlinear_arith)
            requires
                reserve0_ <= MAX_BAL,
                reserve1_ <= MAX_BAL,
        ;
        assert(MAX_BAL * MAX_BAL <= u128::MAX) by (nonlinear_arith);
        let kept: bool = match adjusted0.checked_mul(adjusted1) {
            Some(product) => product >= reserve0_ * reserve1_,
            None => true,
        };
        if !kept {
            self.isEntered = false;
            return Err(Error::InvalidK);
        }
        if balance0 > MAX_BAL || balance1 > MAX_BAL {
            self.isEntered = false;
            return Err(Error::BalanceOverflow);
        }
        let _recording = self._update(balance0, balance1, reserve0_, reserve1_, now);
        self.isEntered = false;
        Ok(())
    }

    /// Records the balances `balance0` and `balance1` as the new reserves at
    /// time `now`, and advances the price accumulators by the prices that
    /// held under the reserves `reserve0_` and `reserve1_`.
    pub fn _update(
        &mut self,
        balance0: Balance,
        balance1: Balance,
        reserve0_: Balance,
        reserve1_: Balance,
        now: Timestamp,
    ) -> (result: Result<(), Error>)
        requires
            old(self).wf(),
        ensures
            final(self).wf(),
            final(self).sum_of_balances() == old(self).sum_of_balances(),
            result == old(self)@.update_result(
                balance0 as nat,
                balance1 as nat,
                reserve0_ as nat,
                reserve1_ as nat,
                now as nat,
            ),
            result.is_ok() ==> final(self)@ == old(self)@.updated(
                balance0 as nat,
                balance1 as nat,
                reserve0_ as nat,
                reserve1_ as nat,
                now as nat,
            ),
            result.is_err() ==> final(self)@ == old(self)@,
    {
        if balance0 > MAX_BAL || balance1 > MAX_BAL {
            return Err(Error::BalanceOverflow);
        }
        if now > self.blockTimestampLast && reserve0_ > 0 && reserve1_ > 0 {
            let price0: Balance = match reserve1_.checked_mul(PRECISION) {
                Some(scaled) => scaled / reserve0_,
                None => {
                    return Err(Error::BalanceOverflow);
                },
            };
            let price1: Balance = match reserve0_.checked_mul(PRECISION) {
                Some(scaled) => scaled / reserve1_,
                None => {
                    return Err(Error::BalanceOverflow);
                },
            };
            self.price0CumulativeLast = self.price0CumulativeLast.saturating_add(price0);
            self.price1CumulativeLast = self.price1CumulativeLast.saturating_add(price1);
        }
        self.reserve0 = balance0;
        self.reserve1 = balance1;
        self.blockTimestampLast = now;
        Ok(())
    }
}

} // verus!
