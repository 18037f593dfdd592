//! What holds of every pool, whatever it is asked to do.

use crate::account::zero_id;
use crate::math::{lemma_isqrt_eq, lemma_isqrt_monotonic, lemma_share_bounded};
use crate::pair::view::{adjusted_balance, amount_in, saturated, PairView};
use crate::pair::{Error, FEE_DENOMINATOR, MINIMUM_LIQUIDITY, PRECISION};
use vstd::prelude::*;

verus! {

/// A first deposit whose amounts multiply to no more than the square of
/// `MINIMUM_LIQUIDITY` is refused as `InsufficientLiquidityMinted`.
pub proof fn lemma_first_deposit_below_minimum(pool: PairView, balance0: nat, balance1: nat)
    requires
        pool.shares.total_supply == 0,
        balance0 >= pool.reserve0,
        balance1 >= pool.reserve1,
        (balance0 - pool.reserve0) * (balance1 - pool.reserve1) <= MINIMUM_LIQUIDITY
            * MINIMUM_LIQUIDITY,
    ensures
        pool.mint_result(balance0, balance1) == Err::<nat, Error>(Error::InsufficientLiquidityMinted),
{
    let product = ((balance0 - pool.reserve0) as nat) * ((balance1 - pool.reserve1) as nat);
    let bound = (MINIMUM_LIQUIDITY * MINIMUM_LIQUIDITY) as nat;
    assert(1_000nat * 1_000nat == 1_000_000 && 1_001nat * 1_001nat > 1_000_000) by (nonlinear_arith);
    lemma_isqrt_eq(bound, MINIMUM_LIQUIDITY as nat);
    lemma_isqrt_monotonic(product, bound);
}

/// The price accumulators stand still where no time has passed since the
/// last update or a reserve was empty. Otherwise each advances by the price
/// of its asset: the other reserve, scaled by `PRECISION`, divided by its
/// own reserve. An accumulator never decreases, and stays at the largest
/// machine word once it has reached it.
pub proof fn lemma_accumulators(
    pool: PairView,
    balance0: nat,
    balance1: nat,
    reserve0: nat,
    reserve1: nat,
    now: nat,
)
    ensures
        ({
            let next = pool.updated(balance0, balance1, reserve0, reserve1, now);
            &&& now <= pool.block_timestamp_last || reserve0 == 0 || reserve1 == 0 ==> {
                &&& next.price0_cumulative_last == pool.price0_cumulative_last
                &&& next.price1_cumulative_last == pool.price1_cumulative_last
            }
            &&& now > pool.block_timestamp_last && reserve0 > 0 && reserve1 > 0 ==> {
                &&& next.price0_cumulative_last == saturated(
                    pool.price0_cumulative_last + (reserve1 * PRECISION / (reserve0 as int)) as nat,
                )
                &&& next.price1_cumulative_last == saturated(
                    pool.price1_cumulative_last + (reserve0 * PRECISION / (reserve1 as int)) as nat,
                )
            }
            &&& pool.price0_cumulative_last <= u128::MAX ==> next.price0_cumulative_last
                >= pool.price0_cumulative_last
            &&& pool.price1_cumulative_last <= u128::MAX ==> next.price1_cumulative_last
                >= pool.price1_cumulative_last
        }),
{
}

/// A trade whose amounts can be paid out and that breaks the
/// constant-product rule is refused as `InvalidK`, and leaves the pool as it
/// was but for the lock, which it releases: the reserves are unchanged.
pub proof fn lemma_swap_breaking_k(
    pool: PairView,
    out0: nat,
    out1: nat,
    balance0: nat,
    balance1: nat,
    now: nat,
)
    requires
        pool.outputs_result(out0, out1) is Ok,
        !pool.k_holds(out0, out1, balance0, balance1),
    ensures
        pool.swap_result(out0, out1, balance0, balance1) == Err::<(), Error>(Error::InvalidK),
        pool.after_swap(out0, out1, balance0, balance1, now) == pool.released(),
        pool.after_swap(out0, out1, balance0, balance1, now).reserve0 == pool.reserve0,
        pool.after_swap(out0, out1, balance0, balance1, now).reserve1 == pool.reserve1,
{
}

/// No trade that the pool accepts lowers the product of its reserves.
pub proof fn lemma_swap_keeps_product(
    pool: PairView,
    out0: nat,
    out1: nat,
    balance0: nat,
    balance1: nat,
    now: nat,
)
    requires
        pool.wf(),
        pool.swap_result(out0, out1, balance0, balance1) is Ok,
    ensures
        ({
            let next = pool.after_swap(out0, out1, balance0, balance1, now);
            next.reserve0 * next.reserve1 >= pool.reserve0 * pool.reserve1
        }),
{
    let paid0 = amount_in(balance0, pool.reserve0, out0);
    let paid1 = amount_in(balance1, pool.reserve1, out1);
    let adjusted0 = adjusted_balance(balance0, paid0, pool.fee);
    let adjusted1 = adjusted_balance(balance1, paid1, pool.fee);
    lemma_share_bounded(pool.fee, paid0, FEE_DENOMINATOR as nat);
    lemma_share_bounded(pool.fee, paid1, FEE_DENOMINATOR as nat);
    assert(paid0 * pool.fee == pool.fee * paid0 && paid1 * pool.fee == pool.fee * paid1)
        by (nonlinear_arith);
    assert(adjusted0 * adjusted1 <= balance0 * balance1) by (nonlinear_arith)
        requires
            adjusted0 <= balance0,
            adjusted1 <= balance1,
    ;
}

/// Where an operation holds the lock, a call that asks for it is refused and
/// changes nothing. And where the operation that holds the lock is then
/// given up, or refused by the pool, the pool is exactly as it was before
/// that operation began.
pub proof fn lemma_reentrant_call_fails_fast(
    pool: PairView,
    to: Seq<u8>,
    out0: nat,
    out1: nat,
    balance0: nat,
    balance1: nat,
    now: nat,
)
    requires
        !pool.is_entered,
    ensures
        ({
            let held = pool.after_try_enter();
            &&& held.is_entered
            &&& !held.can_enter()
            &&& held.after_try_enter() == held
            &&& held.released() == pool
            &&& held.mint_result(balance0, balance1) is Err ==> held.after_mint(
                to,
                balance0,
                balance1,
                now,
            ) == pool
            &&& held.burn_result(balance0, balance1) is Err ==> held.after_burn(balance0, balance1, now)
                == pool
            &&& held.swap_result(out0, out1, balance0, balance1) is Err ==> held.after_swap(
                out0,
                out1,
                balance0,
                balance1,
                now,
            ) == pool
        }),
{
}

/// Whatever a pool is asked to do, it stays the pool of the same two assets
/// under the same registry, address and fee rate, and it comes out unlocked.
pub proof fn lemma_identity_is_fixed(
    pool: PairView,
    to: Seq<u8>,
    out0: nat,
    out1: nat,
    balance0: nat,
    balance1: nat,
    now: nat,
)
    ensures
        ({
            let same = |next: PairView|
                {
                    &&& next.token0 == pool.token0
                    &&& next.token1 == pool.token1
                    &&& next.factory == pool.factory
                    &&& next.account_id == pool.account_id
                    &&& next.fee == pool.fee
                    &&& !next.is_entered
                };
            &&& same(pool.after_mint(to, balance0, balance1, now))
            &&& same(pool.after_burn(balance0, balance1, now))
            &&& same(pool.after_swap(out0, out1, balance0, balance1, now))
        }),
{
}

/// The shares of the null account are locked: no deposit, no trade and no
/// transfer lowers them, and no withdrawal does, unless the pool's own
/// address were the null account.
pub proof fn lemma_locked_shares_stay(
    pool: PairView,
    from: Seq<u8>,
    to: Seq<u8>,
    amount: nat,
    out0: nat,
    out1: nat,
    balance0: nat,
    balance1: nat,
    now: nat,
)
    ensures
        pool.after_mint(to, balance0, balance1, now).shares.balance_of(zero_id())
            >= pool.shares.balance_of(zero_id()),
        pool.after_swap(out0, out1, balance0, balance1, now).shares == pool.shares,
        pool.after_transfer(from, to, amount).shares.balance_of(zero_id()) >= pool.shares.balance_of(
            zero_id(),
        ),
        pool.account_id != zero_id() ==> pool.after_burn(balance0, balance1, now).shares.balance_of(
            zero_id(),
        ) == pool.shares.balance_of(zero_id()),
        pool.shares.total_supply == 0 && pool.mint_result(balance0, balance1) is Ok
            ==> pool.after_mint(to, balance0, balance1, now).shares.balance_of(zero_id())
            >= MINIMUM_LIQUIDITY * PRECISION,
{
}

} // verus!
