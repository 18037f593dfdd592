//! The state of a pool and the rules of its operations.

use crate::account::zero_id;
use crate::ledger::LedgerView;
use crate::math::{isqrt, min_nat, minus, mul_div, proportional_fee};
use crate::pair::{Error, FEE_DENOMINATOR, MAX_BAL, MINIMUM_LIQUIDITY, PRECISION};
use crate::Balance;
use vstd::prelude::*;

verus! {

/// The state of a pool.
#[verifier::ext_equal]
pub struct PairView {
    pub token0: Seq<u8>,
    pub token1: Seq<u8>,
    pub factory: Seq<u8>,
    pub account_id: Seq<u8>,
    pub fee: nat,
    pub reserve0: nat,
    pub reserve1: nat,
    pub block_timestamp_last: nat,
    pub price0_cumulative_last: nat,
    pub price1_cumulative_last: nat,
    pub is_entered: bool,
    pub shares: LedgerView,
}

/// An accumulator that would leave the machine word stays at its largest
/// value.
pub open spec fn saturated(value: nat) -> nat {
    if value > u128::MAX {
        u128::MAX as nat
    } else {
        value
    }
}

/// The price of one asset in units of the other, scaled by `PRECISION` and
/// rounded down: `other` is the reserve of the other asset, `own` that of
/// the asset itself.
pub open spec fn scaled_price(other: nat, own: nat) -> nat {
    other * (PRECISION as nat) / own
}

/// The shares that a deposit of `amount0` and `amount1` earns in a pool with
/// `total_supply` shares and the reserves `reserve0` and `reserve1`.
///
/// The first deposit earns the square root of the product of its amounts,
/// less `MINIMUM_LIQUIDITY`, scaled by `PRECISION`. A later deposit earns
/// the smaller of the two shares that its amounts are of the reserves. A
/// deposit that earns nothing is refused as `InsufficientLiquidityMinted`;
/// a product that does not fit the machine word, or a division by an empty
/// reserve, as `BalanceOverflow`.
pub open spec fn liquidity_for(
    total_supply: nat,
    reserve0: nat,
    reserve1: nat,
    amount0: nat,
    amount1: nat,
) -> Result<nat, Error> {
    if total_supply == 0 {
        if amount0 * amount1 > u128::MAX {
            Err(Error::BalanceOverflow)
        } else if isqrt(amount0 * amount1) <= MINIMUM_LIQUIDITY {
            Err(Error::InsufficientLiquidityMinted)
        } else {
            Ok(((isqrt(amount0 * amount1) - MINIMUM_LIQUIDITY) * PRECISION) as nat)
        }
    } else {
        match (mul_div(amount0, total_supply, reserve0), mul_div(amount1, total_supply, reserve1)) {
            (Some(share0), Some(share1)) => if min_nat(share0, share1) == 0 {
                Err(Error::InsufficientLiquidityMinted)
            } else {
                Ok(min_nat(share0, share1))
            },
            _ => Err(Error::BalanceOverflow),
        }
    }
}

/// Whether the outcome `got` of an operation is the outcome `expected` that
/// the pool's rules give.
pub open spec fn is_outcome(got: Result<Balance, Error>, expected: Result<nat, Error>) -> bool {
    match got {
        Ok(amount) => expected == Ok::<nat, Error>(amount as nat),
        Err(e) => expected == Err::<nat, Error>(e),
    }
}

/// Whether the amounts `got` that a withdrawal pays out are the outcome
/// `expected` that the pool's rules give.
pub open spec fn is_payout(
    got: Result<(Balance, Balance), Error>,
    expected: Result<(nat, nat), Error>,
) -> bool {
    match got {
        Ok(amounts) => expected == Ok::<(nat, nat), Error>((amounts.0 as nat, amounts.1 as nat)),
        Err(e) => expected == Err::<(nat, nat), Error>(e),
    }
}

/// What a trade paid in of one asset: what the balance exceeds the reserve
/// by, once the amount paid out has left the reserve.
pub open spec fn amount_in(balance: nat, reserve: nat, out: nat) -> nat {
    minus(balance, minus(reserve, out))
}

/// The balance of one asset less the trading fee on what was paid in of it,
/// at `fee` parts in `FEE_DENOMINATOR`.
pub open spec fn adjusted_balance(balance: nat, paid_in: nat, fee: nat) -> nat {
    minus(balance, proportional_fee(paid_in, fee, FEE_DENOMINATOR as nat))
}

impl PairView {
    /// The shares that a deposit locks for ever at the null account: the
    /// scaled `MINIMUM_LIQUIDITY` at the first deposit, none later.
    pub open spec fn locked_on_mint(self) -> nat {
        if self.shares.total_supply == 0 {
            (MINIMUM_LIQUIDITY * PRECISION) as nat
        } else {
            0
        }
    }

    /// What a deposit that brought the pool's balances to `balance0` and
    /// `balance1` earns, or why it is refused. The amounts deposited are what
    /// the balances exceed the reserves by. Balances below the reserves,
    /// balances above `MAX_BAL` and a total supply that would leave the
    /// machine word are refused as `BalanceOverflow`.
    pub open spec fn mint_result(self, balance0: nat, balance1: nat) -> Result<nat, Error> {
        if balance0 < self.reserve0 || balance1 < self.reserve1 {
            Err(Error::BalanceOverflow)
        } else {
            match liquidity_for(
                self.shares.total_supply,
                self.reserve0,
                self.reserve1,
                minus(balance0, self.reserve0),
                minus(balance1, self.reserve1),
            ) {
                Err(e) => Err(e),
                Ok(liquidity) => if self.shares.total_supply + self.locked_on_mint() + liquidity
                    > u128::MAX || balance0 > MAX_BAL || balance1 > MAX_BAL {
                    Err(Error::BalanceOverflow)
                } else {
                    Ok(liquidity)
                },
            }
        }
    }

    /// The pool after the deposit was handled: unlocked, and unchanged
    /// otherwise where the deposit was refused. An accepted deposit locks
    /// `locked_on_mint` shares at the null account, issues the shares earned
    /// to `to`, and records the balances as the new reserves.
    pub open spec fn after_mint(self, to: Seq<u8>, balance0: nat, balance1: nat, now: nat) -> PairView {
        match self.mint_result(balance0, balance1) {
            Err(_) => self.released(),
            Ok(liquidity) => {
                let locked = if self.shares.total_supply == 0 {
                    self.shares.minted(zero_id(), self.locked_on_mint())
                } else {
                    self.shares
                };
                PairView { shares: locked.minted(to, liquidity), ..self }.updated(
                    balance0,
                    balance1,
                    self.reserve0,
                    self.reserve1,
                    now,
                ).released()
            },
        }
    }

    /// Whether `amount` shares may move away from `from`: not more than
    /// `from` holds, and none from the null account, whose shares are
    /// locked. Both are refused as `InsufficientLiquidity`.
    pub open spec fn transfer_result(self, from: Seq<u8>, amount: nat) -> Result<(), Error> {
        if from == zero_id() && amount > 0 {
            Err(Error::InsufficientLiquidity)
        } else {
            self.shares.transfer_result(from, amount)
        }
    }

    /// The pool after it was asked to move `amount` shares from `from` to
    /// `to`: unchanged where that is refused; else only the two share
    /// balances have changed.
    pub open spec fn after_transfer(self, from: Seq<u8>, to: Seq<u8>, amount: nat) -> PairView {
        match self.transfer_result(from, amount) {
            Err(_) => self,
            Ok(_) => PairView { shares: self.shares.transferred(from, to, amount), ..self },
        }
    }

    /// The shares that a withdrawal cancels: those that the pool itself
    /// holds, where their owner has sent them.
    pub open spec fn burnable(self) -> nat {
        self.shares.balance_of(self.account_id)
    }

    /// What a withdrawal pays out of each asset, or why it is refused, where
    /// `balance0` and `balance1` are the pool's balances before the payout.
    /// Each amount is the share of the balance that the cancelled shares are
    /// of the total supply. A withdrawal that pays nothing of an asset is
    /// refused as `InsufficientLiquidityBurned`, also where there are no
    /// shares at all; a product that does not fit the machine word, or a
    /// remaining balance above `MAX_BAL`, as `BalanceOverflow`.
    pub open spec fn burn_result(self, balance0: nat, balance1: nat) -> Result<(nat, nat), Error> {
        let total = self.shares.total_supply;
        if total == 0 {
            Err(Error::InsufficientLiquidityBurned)
        } else {
            match (mul_div(self.burnable(), balance0, total), mul_div(self.burnable(), balance1, total)) {
                (Some(amount0), Some(amount1)) => if amount0 == 0 || amount1 == 0 {
                    Err(Error::InsufficientLiquidityBurned)
                } else if minus(balance0, amount0) > MAX_BAL || minus(balance1, amount1) > MAX_BAL {
                    Err(Error::BalanceOverflow)
                } else {
                    Ok((amount0, amount1))
                },
                _ => Err(Error::BalanceOverflow),
            }
        }
    }

    /// The pool after the withdrawal was handled: unlocked, and unchanged
    /// otherwise where the withdrawal was refused. An accepted withdrawal
    /// cancels the shares that the pool holds and records what remains of
    /// the balances after the payout as the new reserves.
    pub open spec fn after_burn(self, balance0: nat, balance1: nat, now: nat) -> PairView {
        match self.burn_result(balance0, balance1) {
            Err(_) => self.released(),
            Ok(amounts) => PairView {
                shares: self.shares.burned(self.account_id, self.burnable()),
                ..self
            }.updated(
                minus(balance0, amounts.0),
                minus(balance1, amounts.1),
                self.reserve0,
                self.reserve1,
                now,
            ).released(),
        }
    }

    /// Whether the amounts `out0` and `out1` can be paid out at all: a trade
    /// that asks for nothing is refused as `InsufficientOutputAmount`, one
    /// that asks for more than a reserve as `InsufficientLiquidity`.
    pub open spec fn outputs_result(self, out0: nat, out1: nat) -> Result<(), Error> {
        if out0 == 0 && out1 == 0 {
            Err(Error::InsufficientOutputAmount)
        } else if out0 > self.reserve0 || out1 > self.reserve1 {
            Err(Error::InsufficientLiquidity)
        } else {
            Ok(())
        }
    }

    /// The constant-product rule: the product of the balances, each less the
    /// fee on what was paid in of it, is at least the product of the
    /// reserves.
    pub open spec fn k_holds(self, out0: nat, out1: nat, balance0: nat, balance1: nat) -> bool {
        adjusted_balance(balance0, amount_in(balance0, self.reserve0, out0), self.fee)
            * adjusted_balance(balance1, amount_in(balance1, self.reserve1, out1), self.fee)
            >= self.reserve0 * self.reserve1
    }

    /// Whether a trade that paid out `out0` and `out1` and left the pool with
    /// the balances `balance0` and `balance1` is accepted. After the amounts
    /// themselves the constant-product rule is tested, and its breach refused
    /// as `InvalidK`; then the balances, which are refused as
    /// `BalanceOverflow` above `MAX_BAL`.
    pub open spec fn swap_result(self, out0: nat, out1: nat, balance0: nat, balance1: nat) -> Result<
        (),
        Error,
    > {
        match self.outputs_result(out0, out1) {
            Err(e) => Err(e),
            Ok(_) => if !self.k_holds(out0, out1, balance0, balance1) {
                Err(Error::InvalidK)
            } else if balance0 > MAX_BAL || balance1 > MAX_BAL {
                Err(Error::BalanceOverflow)
            } else {
                Ok(())
            },
        }
    }

    /// The pool after the trade was handled: unlocked, and unchanged
    /// otherwise where the trade was refused. An accepted trade records the
    /// balances as the new reserves.
    pub open spec fn after_swap(self, out0: nat, out1: nat, balance0: nat, balance1: nat, now: nat) -> PairView {
        match self.swap_result(out0, out1, balance0, balance1) {
            Err(_) => self.released(),
            Ok(_) => self.updated(balance0, balance1, self.reserve0, self.reserve1, now).released(),
        }
    }

    /// A new pool: no reserves, no shares, unlocked. A fee rate that is not
    /// below `FEE_DENOMINATOR` counts as no fee.
    pub open spec fn initial(
        token0: Seq<u8>,
        token1: Seq<u8>,
        factory: Seq<u8>,
        account_id: Seq<u8>,
        fee: nat,
    ) -> PairView {
        PairView {
            token0,
            token1,
            factory,
            account_id,
            fee: if fee >= FEE_DENOMINATOR {
                0
            } else {
                fee
            },
            reserve0: 0,
            reserve1: 0,
            block_timestamp_last: 0,
            price0_cumulative_last: 0,
            price1_cumulative_last: 0,
            is_entered: false,
            shares: LedgerView::empty(),
        }
    }

    /// What holds of every pool: the reserves do not exceed `MAX_BAL`, and
    /// the fee rate is below `FEE_DENOMINATOR`.
    pub open spec fn wf(self) -> bool {
        &&& self.reserve0 <= MAX_BAL
        &&& self.reserve1 <= MAX_BAL
        &&& self.fee < FEE_DENOMINATOR
    }

    /// Whether an operation may begin: the lock is free.
    pub open spec fn can_enter(self) -> bool {
        !self.is_entered
    }

    /// The pool after an operation asked for the lock: held, if it was
    /// free, and unchanged if not.
    pub open spec fn after_try_enter(self) -> PairView {
        if self.is_entered {
            self
        } else {
            self.entered()
        }
    }

    /// The same pool with its lock held.
    pub open spec fn entered(self) -> PairView {
        PairView { is_entered: true, ..self }
    }

    /// The same pool with its lock free.
    pub open spec fn released(self) -> PairView {
        PairView { is_entered: false, ..self }
    }

    /// Whether an update at time `now`, after the reserves `reserve0` and
    /// `reserve1`, advances the price accumulators: time has passed since
    /// the last update, and both reserves were positive.
    pub open spec fn accumulates(self, reserve0: nat, reserve1: nat, now: nat) -> bool {
        now > self.block_timestamp_last && reserve0 > 0 && reserve1 > 0
    }

    /// An update is refused where a new balance exceeds `MAX_BAL`, or where
    /// the accumulators advance and a price does not fit the machine word.
    pub open spec fn update_result(
        self,
        balance0: nat,
        balance1: nat,
        reserve0: nat,
        reserve1: nat,
        now: nat,
    ) -> Result<(), Error> {
        if balance0 > MAX_BAL || balance1 > MAX_BAL {
            Err(Error::BalanceOverflow)
        } else if self.accumulates(reserve0, reserve1, now) && (reserve0 * PRECISION > u128::MAX
            || reserve1 * PRECISION > u128::MAX) {
            Err(Error::BalanceOverflow)
        } else {
            Ok(())
        }
    }

    /// The pool after an update that was not refused: the reserves are the
    /// new balances, the time of the last update is `now`, and each
    /// accumulator has advanced by the price of its asset in the other, or
    /// not at all.
    pub open spec fn updated(
        self,
        balance0: nat,
        balance1: nat,
        reserve0: nat,
        reserve1: nat,
        now: nat,
    ) -> PairView {
        let grows = self.accumulates(reserve0, reserve1, now);
        PairView {
            reserve0: balance0,
            reserve1: balance1,
            block_timestamp_last: now,
            price0_cumulative_last: if grows {
                saturated(self.price0_cumulative_last + scaled_price(reserve1, reserve0))
            } else {
                self.price0_cumulative_last
            },
            price1_cumulative_last: if grows {
                saturated(self.price1_cumulative_last + scaled_price(reserve0, reserve1))
            } else {
                self.price1_cumulative_last
            },
            ..self
        }
    }
}

} // verus!
