//! The trade-context state machine: a trade is opened, each component is
//! filled on the order book in any order and any number of attempts, and the
//! trade is finalized; or it is reverted, after which the filled part is
//! traded back the other way until every component is treated again.
use crate::arith::{div_pow10, lemma_pow10_positive, mul_pow10, pow10};
use crate::errors::FruitBasketError;
use crate::instructions::{FinalizeContext, InitTradeContext, ProcessTokenOnContext, RevertTradeContext};
use crate::key::AccountKey;
use crate::price::per_unit;
use crate::states::{
    find_key,
    index_of,
    lemma_index_of_range,
    Basket,
    BasketTradeContext,
    ContextSide,
    FruitBasketGroup,
    TradeContextModel,
    BASKET_TRADE_CONTEXT_MAGIC,
    MAX_NB_COMPONENTS,
};
use vstd::arithmetic::div_mod::{
    lemma_div_is_ordered,
    lemma_div_is_ordered_by_denominator,
    lemma_fundamental_div_mod,
};
use vstd::prelude::*;

verus! {

/// What the caller must move when a trade opens.
#[derive(Clone, Copy, Debug, PartialEq, Eq, Structural)]
pub enum OpeningTransfer {
    /// Move this many quote units from the buyer into the transaction pool.
    EscrowQuote(u64),
    /// Burn this many basket units from the seller.
    BurnBasketTokens(u64),
}

/// The price a trade is checked against: the basket price moved by its
/// confidence against the trader (up for a buy, down for a sell).
pub open spec fn reference_price(side: ContextSide, last_price: int, confidence: int) -> int {
    match side {
        ContextSide::Buy => last_price + confidence,
        ContextSide::Sell => last_price - confidence,
    }
}

/// The reference price with a tenth of it allowed for slippage, bounded by
/// the trader's limit (a ceiling for a buy, a floor for a sell).
pub open spec fn worst_case_price(side: ContextSide, last_price: int, confidence: int, limit: int) -> int {
    let r = reference_price(side, last_price, confidence);
    match side {
        ContextSide::Buy => if r + r / 10 <= limit {
            r + r / 10
        } else {
            limit
        },
        ContextSide::Sell => if r - r / 10 >= limit {
            r - r / 10
        } else {
            limit
        },
    }
}

/// Amount of a component that `amount` basket units hold, on the basket
/// scale.
pub open spec fn component_amount(basket: Basket, i: int, amount: u64) -> nat {
    per_unit(
        amount as nat,
        basket.components@[i].amount as nat,
        basket.components@[i].decimal as nat,
    )
}

/// Whether opening a trade succeeds, and with which escrow (zero for a sell).
pub open spec fn init_outcome(
    basket: Basket,
    supplied_pool: Seq<u8>,
    group_pool: Seq<u8>,
    side: ContextSide,
    amount: u64,
    limit: u64,
) -> Result<u64, FruitBasketError> {
    let r = reference_price(side, basket.last_price as int, basket.confidence as int);
    if side == ContextSide::Buy && limit < r {
        Err(FruitBasketError::TooLowMaximumBuyPrice)
    } else if side == ContextSide::Sell && limit > r {
        Err(FruitBasketError::TooHighMinimumSellPrice)
    } else if side == ContextSide::Buy && supplied_pool != group_pool {
        Err(FruitBasketError::AccountsMismatch)
    } else if exists|i: int|
        0 <= i < basket.components@.len() && #[trigger] component_amount(basket, i, amount)
            > u64::MAX {
        Err(FruitBasketError::ArithmeticOverflow)
    } else if side == ContextSide::Buy {
        Ok(worst_case_price(side, basket.last_price as int, basket.confidence as int, limit as int) as u64)
    } else {
        Ok(0)
    }
}

pub open spec fn zero_key() -> Seq<u8> {
    Seq::new(32, |i: int| 0u8)
}

/// The context a successful opening creates, with `escrow` quote units held.
pub open spec fn opened_context(
    basket: Basket,
    accounts: InitTradeContext,
    side: ContextSide,
    amount: u64,
    escrow: u64,
    created_on: u64,
) -> TradeContextModel {
    let n = basket.components@.len();
    TradeContextModel {
        side,
        reverting: false,
        basket: accounts.basket@,
        amount,
        usdc_amount_left: escrow,
        quote_token_account: accounts.quote_token_account@,
        basket_token_account: accounts.basket_token_account@,
        initial_usdc_transfer_amount: escrow,
        created_on,
        number_of_components: n,
        token_mints: Seq::new(
            MAX_NB_COMPONENTS as nat,
            |i: int|
                if i < n {
                    basket.components@[i].token_mint@
                } else {
                    zero_key()
                },
        ),
        token_amounts: Seq::new(
            MAX_NB_COMPONENTS as nat,
            |i: int|
                if i < n {
                    component_amount(basket, i, amount) as u64
                } else {
                    0u64
                },
        ),
        initial_token_amounts: Seq::new(
            MAX_NB_COMPONENTS as nat,
            |i: int|
                if i < n {
                    component_amount(basket, i, amount) as u64
                } else {
                    0u64
                },
        ),
        tokens_treated: Seq::new(MAX_NB_COMPONENTS as nat, |i: int| i >= n),
    }
}

/// Opens a trade of `amount` basket units of `basket` on `side`, with the
/// trader's price limit `max_buy_or_min_sell_price`, at time `created_on`.
/// Returns the new context and the transfer the caller must then make; a
/// buy escrows its worst-case price, a sell burns the basket units.
pub fn init_trade_context(
    accounts: &InitTradeContext,
    group: &FruitBasketGroup,
    basket: &Basket,
    side: ContextSide,
    amount: u64,
    max_buy_or_min_sell_price: u64,
    created_on: u64,
) -> (r: Result<(BasketTradeContext, OpeningTransfer), FruitBasketError>)
    requires
        basket.wf(),
    ensures
        match init_outcome(
            *basket,
            accounts.quote_token_transaction_pool@,
            group.quote_token_transaction_pool@,
            side,
            amount,
            max_buy_or_min_sell_price,
        ) {
            Ok(escrow) => r.is_ok() && r.unwrap().0@ == opened_context(
                *basket,
                *accounts,
                side,
                amount,
                escrow,
                created_on,
            ) && r.unwrap().0@.wf() && r.unwrap().0.magic == BASKET_TRADE_CONTEXT_MAGIC
                && r.unwrap().1 == (if side == ContextSide::Buy {
                OpeningTransfer::EscrowQuote(escrow)
            } else {
                OpeningTransfer::BurnBasketTokens(amount)
            }),
            Err(e) => r == Err::<(BasketTradeContext, OpeningTransfer), FruitBasketError>(e),
        },
        r.is_ok() && side == ContextSide::Buy ==> r.unwrap().0.initial_usdc_transfer_amount
            >= reference_price(side, basket.last_price as int, basket.confidence as int),
{
    let last: u128 = basket.last_price as u128;
    let conf: u128 = basket.confidence as u128;
    let limit: u128 = max_buy_or_min_sell_price as u128;
    let escrow: u64 = match side {
        ContextSide::Buy => {
            let reference: u128 = last + conf;
            if limit < reference {
                return Err(FruitBasketError::TooLowMaximumBuyPrice);
            }
            if !accounts.quote_token_transaction_pool.same_as(&group.quote_token_transaction_pool) {
                return Err(FruitBasketError::AccountsMismatch);
            }
            let slipped: u128 = reference + reference / 10;
            if slipped <= limit {
                slipped as u64
            } else {
                max_buy_or_min_sell_price
            }
        },
        ContextSide::Sell => {
            if conf > last || limit > last - conf {
                return Err(FruitBasketError::TooHighMinimumSellPrice);
            }
            0
        },
    };
    let n: usize = basket.components.len();
    let mut token_mints: Vec<AccountKey> = Vec::new();
    let mut token_amounts: Vec<u64> = Vec::new();
    let mut tokens_treated: Vec<bool> = Vec::new();
    let ghost model = opened_context(*basket, *accounts, side, amount, escrow, created_on);
    let mut i: usize = 0;
    while i < MAX_NB_COMPONENTS
        invariant
            i <= MAX_NB_COMPONENTS,
            n == basket.components@.len(),
            n < MAX_NB_COMPONENTS,
            model == opened_context(*basket, *accounts, side, amount, escrow, created_on),
            side == ContextSide::Buy ==> max_buy_or_min_sell_price >= reference_price(
                side,
                basket.last_price as int,
                basket.confidence as int,
            ),
            side == ContextSide::Buy ==> accounts.quote_token_transaction_pool@
                == group.quote_token_transaction_pool@,
            side == ContextSide::Buy ==> escrow == worst_case_price(
                side,
                basket.last_price as int,
                basket.confidence as int,
                max_buy_or_min_sell_price as int,
            ),
            side == ContextSide::Sell ==> max_buy_or_min_sell_price <= reference_price(
                side,
                basket.last_price as int,
                basket.confidence as int,
            ),
            side == ContextSide::Sell ==> escrow == 0,
            token_mints@.len() == i,
            token_amounts@.len() == i,
            tokens_treated@.len() == i,
            forall|j: int| 0 <= j < i ==> #[trigger] token_mints@[j]@ == model.token_mints[j],
            forall|j: int| 0 <= j < i ==> #[trigger] token_amounts@[j] == model.token_amounts[j],
            forall|j: int| 0 <= j < i ==> #[trigger] tokens_treated@[j] == model.tokens_treated[j],
            forall|j: int|
                0 <= j < i && j < n ==> #[trigger] component_amount(*basket, j, amount) <= u64::MAX,
        decreases MAX_NB_COMPONENTS - i,
    {
        if i < n {
            let c = basket.components[i];
            proof {
                assert(amount * c.amount <= u64::MAX * u64::MAX) by (nonlinear_arith)
                    requires
                        amount <= u64::MAX,
                        c.amount <= u64::MAX,
                ;
            }
            let product: u128 = amount as u128 * c.amount as u128;
            let scaled: u128 = div_pow10(product, c.decimal as u32);
            if scaled > u64::MAX as u128 {
                proof {
                    assert(component_amount(*basket, i as int, amount) > u64::MAX);
                }
                return Err(FruitBasketError::ArithmeticOverflow);
            }
            token_mints.push(c.token_mint);
            token_amounts.push(scaled as u64);
            tokens_treated.push(false);
        } else {
            let z = AccountKey::zero();
            token_mints.push(z);
            token_amounts.push(0);
            tokens_treated.push(true);
        }
        i = i + 1;
    }
    let ctx = BasketTradeContext {
        magic: BASKET_TRADE_CONTEXT_MAGIC,
        side,
        basket: accounts.basket,
        reverting: false,
        amount,
        usdc_amount_left: escrow,
        quote_token_account: accounts.quote_token_account,
        basket_token_account: accounts.basket_token_account,
        initial_usdc_transfer_amount: escrow,
        created_on,
        number_of_components: basket.number_of_components,
        token_mints: token_mints.clone(),
        token_amounts: token_amounts.clone(),
        initial_token_amounts: token_amounts,
        tokens_treated,
    };
    assert(ctx@.token_mints =~= model.token_mints);
    assert(ctx@.token_amounts =~= model.token_amounts);
    assert(ctx@.initial_token_amounts =~= model.initial_token_amounts);
    assert(ctx@.tokens_treated =~= model.tokens_treated);
    assert(ctx@ =~= model);
    let transfer = match side {
        ContextSide::Buy => OpeningTransfer::EscrowQuote(escrow),
        ContextSide::Sell => OpeningTransfer::BurnBasketTokens(amount),
    };
    Ok((ctx, transfer))
}


/// An amount on the basket scale (six decimals) in the native unit of an
/// asset with `token_decimal` decimals, rounded down.
pub open spec fn native_amount(a: nat, token_decimal: nat) -> nat {
    if token_decimal >= 6 {
        a * pow10((token_decimal - 6) as nat)
    } else {
        a / pow10((6 - token_decimal) as nat)
    }
}

/// `a / b` rounded up.
pub open spec fn ceil_div(a: nat, b: nat) -> nat {
    if (a / b) * b == a {
        a / b
    } else {
        a / b + 1
    }
}

/// A filled quantity in native units on the basket scale, rounded up, so
/// that what is booked as filled never falls short of the fill.
pub open spec fn fill_in_basket_units(f: nat, token_decimal: nat) -> nat {
    if token_decimal >= 6 {
        ceil_div(f, pow10((token_decimal - 6) as nat))
    } else {
        f * pow10((6 - token_decimal) as nat)
    }
}

/// One immediate-or-cancel order for one component.
#[derive(Clone, Copy, Debug, PartialEq, Eq, Structural)]
pub struct OrderRequest {
    /// Slot of the component in the context.
    pub component_index: usize,
    /// Buy the asset (pay quote), or sell it (receive quote).
    pub buy: bool,
    /// Most lots to trade.
    pub max_coin_qty: u64,
    /// Most quote units to pay; unbounded for a sell.
    pub max_native_pc_qty: u64,
    pub token_decimal: u8,
    pub lot_size: u64,
}

/// What the caller must do for a component.
#[derive(Clone, Copy, Debug, PartialEq, Eq, Structural)]
pub enum AssetAction {
    /// Nothing: the asset is not in the basket, or is already treated.
    Nothing,
    /// Place the order, settle it, and report the pool balances.
    PlaceOrder(OrderRequest),
}

/// Balances of the asset's pool and of the quote pool, read before the
/// order and after its settlement.
#[derive(Clone, Copy, Debug, PartialEq, Eq, Structural)]
pub struct FillObservation {
    pub token_pool_before: u64,
    pub token_pool_after: u64,
    pub quote_pool_before: u64,
    pub quote_pool_after: u64,
}

/// Slot of the asset with mint `mint` among the context's components, or -1.
pub open spec fn component_slot(m: TradeContextModel, mint: Seq<u8>) -> int {
    index_of(m.token_mints, mint, 0, m.number_of_components as int)
}

/// What planning a fill of the asset `mint` answers.
pub open spec fn plan_outcome(
    m: TradeContextModel,
    basket: Seq<u8>,
    mint: Seq<u8>,
    token_decimal: u8,
    lot_size: u64,
) -> Result<AssetAction, FruitBasketError> {
    let i = component_slot(m, mint);
    let native = native_amount(m.token_amounts[i] as nat, token_decimal as nat);
    if m.basket != basket {
        Err(FruitBasketError::UnknownBasket)
    } else if i < 0 || m.tokens_treated[i] {
        Ok(AssetAction::Nothing)
    } else if lot_size == 0 {
        Err(FruitBasketError::UnknownMarket)
    } else if native > u64::MAX {
        Err(FruitBasketError::ArithmeticOverflow)
    } else if native / (lot_size as nat) == 0 {
        Ok(AssetAction::Nothing)
    } else {
        Ok(
            AssetAction::PlaceOrder(
                OrderRequest {
                    component_index: i as usize,
                    buy: m.trades_buy(),
                    max_coin_qty: (native / (lot_size as nat)) as u64,
                    max_native_pc_qty: if m.trades_buy() {
                        m.usdc_amount_left
                    } else {
                        u64::MAX
                    },
                    token_decimal,
                    lot_size,
                },
            ),
        )
    }
}

/// The context after planning: unchanged, but for a component with less
/// than one lot left, which is written off as treated.
pub open spec fn plan_state(
    m: TradeContextModel,
    basket: Seq<u8>,
    mint: Seq<u8>,
    token_decimal: u8,
    lot_size: u64,
) -> TradeContextModel {
    let i = component_slot(m, mint);
    let native = native_amount(m.token_amounts[i] as nat, token_decimal as nat);
    if m.basket == basket && i >= 0 && !m.tokens_treated[i] && lot_size > 0 && native <= u64::MAX
        && native / (lot_size as nat) == 0 {
        TradeContextModel { tokens_treated: m.tokens_treated.update(i, true), ..m }
    } else {
        m
    }
}

/// Quantity of the asset the order moved, in its direction.
pub open spec fn filled_quantity(buy: bool, obs: FillObservation) -> int {
    if buy {
        obs.token_pool_after - obs.token_pool_before
    } else {
        obs.token_pool_before - obs.token_pool_after
    }
}

/// Quote units the order paid (buy) or received (sell).
pub open spec fn quote_moved(buy: bool, obs: FillObservation) -> int {
    if buy {
        obs.quote_pool_before - obs.quote_pool_after
    } else {
        obs.quote_pool_after - obs.quote_pool_before
    }
}

/// Quote units held for the trade once the order is booked.
pub open spec fn quote_left_after(m: TradeContextModel, obs: FillObservation) -> int {
    if m.trades_buy() {
        m.usdc_amount_left - quote_moved(true, obs)
    } else {
        m.usdc_amount_left + quote_moved(false, obs)
    }
}

/// What booking an order's fill answers.
pub open spec fn fill_outcome(m: TradeContextModel, o: OrderRequest, obs: FillObservation) -> Result<
    (),
    FruitBasketError,
> {
    let i = o.component_index as int;
    let native = native_amount(m.token_amounts[i] as nat, o.token_decimal as nat);
    let filled = filled_quantity(m.trades_buy(), obs);
    let left = quote_left_after(m, obs);
    if i >= m.number_of_components {
        Err(FruitBasketError::TokenNotFound)
    } else if m.tokens_treated[i] {
        Ok(())
    } else if o.lot_size == 0 {
        Err(FruitBasketError::UnknownMarket)
    } else if native > u64::MAX || filled < 0 || filled > native {
        Err(FruitBasketError::ArithmeticOverflow)
    } else if quote_moved(m.trades_buy(), obs) < 0 || left < 0 || left > u64::MAX {
        Err(FruitBasketError::ArithmeticOverflow)
    } else {
        Ok(())
    }
}

/// The context once an order's fill is booked: the component's amount left
/// drops by the fill, it is treated once less than a lot is left, and the
/// quote moved is booked.
pub open spec fn fill_state(m: TradeContextModel, o: OrderRequest, obs: FillObservation) -> TradeContextModel {
    let i = o.component_index as int;
    let td = o.token_decimal as nat;
    let rest = m.token_amounts[i] - fill_in_basket_units(
        filled_quantity(m.trades_buy(), obs) as nat,
        td,
    );
    if fill_outcome(m, o, obs) is Ok && !m.tokens_treated[i] {
        TradeContextModel {
            token_amounts: m.token_amounts.update(i, rest as u64),
            tokens_treated: m.tokens_treated.update(i, native_amount(rest as nat, td) < o.lot_size),
            usdc_amount_left: quote_left_after(m, obs) as u64,
            ..m
        }
    } else {
        m
    }
}

/// `native_amount(a, token_decimal)`, or `None` where it exceeds `u64::MAX`.
fn native_amount_checked(a: u64, token_decimal: u8) -> (r: Option<u64>)
    ensures
        r.is_some() <==> native_amount(a as nat, token_decimal as nat) <= u64::MAX,
        r.is_some() ==> r.unwrap() == native_amount(a as nat, token_decimal as nat),
{
    if token_decimal >= 6 {
        match mul_pow10(a as u128, (token_decimal - 6) as u32) {
            Some(v) => if v > u64::MAX as u128 {
                None
            } else {
                Some(v as u64)
            },
            None => None,
        }
    } else {
        let v = div_pow10(a as u128, (6 - token_decimal) as u32);
        proof {
            lemma_pow10_positive((6 - token_decimal) as nat);
            lemma_div_is_ordered_by_denominator(a as int, 1, pow10((6 - token_decimal) as nat) as int);
        }
        Some(v as u64)
    }
}

pub proof fn lemma_fill_fits(a: nat, f: nat, td: nat)
    requires
        f <= native_amount(a, td),
    ensures
        fill_in_basket_units(f, td) <= a,
{
    if td >= 6 {
        let p = pow10((td - 6) as nat);
        lemma_pow10_positive((td - 6) as nat);
        lemma_div_is_ordered(f as int, (a * p) as int, p as int);
        assert((a * p) / p == a) by {
            vstd::arithmetic::div_mod::lemma_div_multiples_vanish(a as int, p as int);
        }
        lemma_fundamental_div_mod(f as int, p as int);
        if (f / p) * p != f && f / p == a {
            vstd::arithmetic::div_mod::lemma_mod_bound(f as int, p as int);
            assert((f / p) * p <= f) by (nonlinear_arith)
                requires
                    f == p * (f / p) + f % p,
                    f % p >= 0,
            ;
            assert(a * p == (f / p) * p);
        }
    } else {
        let p = pow10((6 - td) as nat);
        lemma_pow10_positive((6 - td) as nat);
        lemma_fundamental_div_mod(a as int, p as int);
        vstd::arithmetic::div_mod::lemma_mod_bound(a as int, p as int);
        assert(f * p <= (a / p) * p) by (nonlinear_arith)
            requires
                f <= a / p,
                p >= 1,
        ;
    }
}

/// `fill_in_basket_units(f, token_decimal)`, for a fill that does not exceed
/// `native_amount(a, token_decimal)`.
fn fill_in_basket_units_of(f: u64, token_decimal: u8, a: u64) -> (r: u64)
    requires
        f <= native_amount(a as nat, token_decimal as nat),
    ensures
        r == fill_in_basket_units(f as nat, token_decimal as nat),
        r <= a,
{
    proof {
        lemma_fill_fits(a as nat, f as nat, token_decimal as nat);
    }
    if token_decimal >= 6 {
        let k: u32 = (token_decimal - 6) as u32;
        let q = div_pow10(f as u128, k);
        proof {
            lemma_pow10_positive(k as nat);
            lemma_fundamental_div_mod(f as int, pow10(k as nat) as int);
            vstd::arithmetic::div_mod::lemma_mod_bound(f as int, pow10(k as nat) as int);
            let p = pow10(k as nat);
            let fv = f as nat;
            assert(q * p <= fv) by (nonlinear_arith)
                requires
                    fv == p * (fv / p) + fv % p,
                    fv % p >= 0,
                    q == fv / p,
            ;
        }
        let back = mul_pow10(q, k).unwrap();
        if back == f as u128 {
            q as u64
        } else {
            (q + 1) as u64
        }
    } else {
        let v = mul_pow10(f as u128, (6 - token_decimal) as u32).unwrap();
        v as u64
    }
}

/// Decides the order for the asset `accounts.token_mint` of the trade
/// `ctx`, on an order book whose lot is `lot_size` native units of an asset
/// with `token_decimal` decimals. An asset outside the basket, or already
/// treated, needs nothing; a component with less than a lot left is written
/// off as treated.
pub fn plan_token_for_context(
    ctx: &mut BasketTradeContext,
    accounts: &ProcessTokenOnContext,
    token_decimal: u8,
    lot_size: u64,
) -> (r: Result<AssetAction, FruitBasketError>)
    requires
        old(ctx)@.wf(),
    ensures
        r == plan_outcome(
            old(ctx)@,
            accounts.fruitbasket@,
            accounts.token_mint@,
            token_decimal,
            lot_size,
        ),
        final(ctx)@ == plan_state(
            old(ctx)@,
            accounts.fruitbasket@,
            accounts.token_mint@,
            token_decimal,
            lot_size,
        ),
        final(ctx)@.wf(),
        final(ctx).magic == old(ctx).magic,
{
    if !ctx.basket.same_as(&accounts.fruitbasket) {
        return Err(FruitBasketError::UnknownBasket);
    }
    let n = ctx.number_of_components as usize;
    let found = find_key(&ctx.token_mints, &accounts.token_mint, n);
    let i = match found {
        None => {
            return Ok(AssetAction::Nothing);
        },
        Some(i) => i,
    };
    proof {
        lemma_index_of_range(ctx@.token_mints, accounts.token_mint@, 0, n as int);
    }
    if ctx.tokens_treated[i] {
        return Ok(AssetAction::Nothing);
    }
    if lot_size == 0 {
        return Err(FruitBasketError::UnknownMarket);
    }
    let native = match native_amount_checked(ctx.token_amounts[i], token_decimal) {
        None => {
            return Err(FruitBasketError::ArithmeticOverflow);
        },
        Some(v) => v,
    };
    let qty = native / lot_size;
    if qty == 0 {
        ctx.tokens_treated.set(i, true);
        assert(ctx@ =~= plan_state(
            old(ctx)@,
            accounts.fruitbasket@,
            accounts.token_mint@,
            token_decimal,
            lot_size,
        ));
        return Ok(AssetAction::Nothing);
    }
    let buy = ctx.trades_buy();
    let max_native_pc_qty = if buy {
        ctx.usdc_amount_left
    } else {
        u64::MAX
    };
    Ok(
        AssetAction::PlaceOrder(
            OrderRequest {
                component_index: i,
                buy,
                max_coin_qty: qty,
                max_native_pc_qty,
                token_decimal,
                lot_size,
            },
        ),
    )
}

/// Books the fill of `order` on the trade `ctx`, from the pool balances the
/// caller read around the order. The direction is the context's own (see
/// `trades_buy`): the fill is what the asset pool gained on a buy or lost on
/// a sell. Nothing changes when the balances are inconsistent with the order
/// or with what is left to trade.
pub fn process_token_for_context(
    ctx: &mut BasketTradeContext,
    order: &OrderRequest,
    observed: &FillObservation,
) -> (r: Result<(), FruitBasketError>)
    requires
        old(ctx)@.wf(),
    ensures
        r == fill_outcome(old(ctx)@, *order, *observed),
        final(ctx)@ == fill_state(old(ctx)@, *order, *observed),
        final(ctx)@.wf(),
        final(ctx).magic == old(ctx).magic,
{
    let i = order.component_index;
    if i >= ctx.number_of_components as usize {
        return Err(FruitBasketError::TokenNotFound);
    }
    if ctx.tokens_treated[i] {
        return Ok(());
    }
    if order.lot_size == 0 {
        return Err(FruitBasketError::UnknownMarket);
    }
    let buy = ctx.trades_buy();
    let remaining = ctx.token_amounts[i];
    let native = match native_amount_checked(remaining, order.token_decimal) {
        None => {
            return Err(FruitBasketError::ArithmeticOverflow);
        },
        Some(v) => v,
    };
    let obs = *observed;
    let filled: u64 = if buy {
        if obs.token_pool_after < obs.token_pool_before {
            return Err(FruitBasketError::ArithmeticOverflow);
        }
        obs.token_pool_after - obs.token_pool_before
    } else {
        if obs.token_pool_before < obs.token_pool_after {
            return Err(FruitBasketError::ArithmeticOverflow);
        }
        obs.token_pool_before - obs.token_pool_after
    };
    if filled > native {
        return Err(FruitBasketError::ArithmeticOverflow);
    }
    let left: u64 = if buy {
        if obs.quote_pool_before < obs.quote_pool_after {
            return Err(FruitBasketError::ArithmeticOverflow);
        }
        let spent = obs.quote_pool_before - obs.quote_pool_after;
        if spent > ctx.usdc_amount_left {
            return Err(FruitBasketError::ArithmeticOverflow);
        }
        ctx.usdc_amount_left - spent
    } else {
        if obs.quote_pool_after < obs.quote_pool_before {
            return Err(FruitBasketError::ArithmeticOverflow);
        }
        let received = obs.quote_pool_after - obs.quote_pool_before;
        if received > u64::MAX - ctx.usdc_amount_left {
            return Err(FruitBasketError::ArithmeticOverflow);
        }
        ctx.usdc_amount_left + received
    };
    let booked = fill_in_basket_units_of(filled, order.token_decimal, remaining);
    let rest = remaining - booked;
    let rest_native = native_amount_checked(rest, order.token_decimal);
    let treated = match rest_native {
        Some(v) => v < order.lot_size,
        None => false,
    };
    ctx.token_amounts.set(i, rest);
    ctx.tokens_treated.set(i, treated);
    ctx.usdc_amount_left = left;
    assert(ctx@ =~= fill_state(old(ctx)@, *order, *observed));
    Ok(())
}


/// Amount left in slot `i` once the trade is reverted: a treated component
/// is traded back for its whole initial amount, a partly filled one for what
/// was filled, and an untouched one keeps its amount.
pub open spec fn reverted_amount(m: TradeContextModel, i: int) -> u64 {
    if i >= m.number_of_components {
        m.token_amounts[i]
    } else if m.tokens_treated[i] {
        m.initial_token_amounts[i]
    } else if m.token_amounts[i] == m.initial_token_amounts[i] {
        m.token_amounts[i]
    } else {
        (m.initial_token_amounts[i] - m.token_amounts[i]) as u64
    }
}

/// Whether slot `i` is treated once the trade is reverted: a treated
/// component is opened again, and an untreated one of which nothing was
/// filled has nothing to undo.
pub open spec fn reverted_treated(m: TradeContextModel, i: int) -> bool {
    if i >= m.number_of_components {
        m.tokens_treated[i]
    } else if m.tokens_treated[i] {
        false
    } else {
        m.token_amounts[i] == m.initial_token_amounts[i]
    }
}

pub open spec fn revert_outcome(m: TradeContextModel, basket: Seq<u8>) -> Result<(), FruitBasketError> {
    if m.basket != basket {
        Err(FruitBasketError::UnknownBasket)
    } else {
        Ok(())
    }
}

/// The context once reverted, with `quote_pool_balance` the balance of the
/// quote pool; a context already reverting stays as it is.
pub open spec fn revert_state(m: TradeContextModel, basket: Seq<u8>, quote_pool_balance: u64) -> TradeContextModel {
    if m.basket != basket || m.reverting {
        m
    } else {
        TradeContextModel {
            reverting: true,
            usdc_amount_left: if m.side == ContextSide::Buy {
                0
            } else {
                quote_pool_balance
            },
            token_amounts: Seq::new(MAX_NB_COMPONENTS as nat, |i: int| reverted_amount(m, i)),
            tokens_treated: Seq::new(MAX_NB_COMPONENTS as nat, |i: int| reverted_treated(m, i)),
            ..m
        }
    }
}

/// Turns the trade `ctx` round: from now on each component is traded in the
/// opposite direction, for what was filled of it. `quote_pool_balance` is
/// the current balance of the quote pool, which a reverted sell will pay its
/// buys back from. Reverting twice changes nothing.
pub fn revert_trade_context(
    ctx: &mut BasketTradeContext,
    accounts: &RevertTradeContext,
    quote_pool_balance: u64,
) -> (r: Result<(), FruitBasketError>)
    requires
        old(ctx)@.wf(),
    ensures
        r == revert_outcome(old(ctx)@, accounts.fruitbasket@),
        final(ctx)@ == revert_state(old(ctx)@, accounts.fruitbasket@, quote_pool_balance),
        final(ctx)@.wf(),
        final(ctx).magic == old(ctx).magic,
{
    if !ctx.basket.same_as(&accounts.fruitbasket) {
        return Err(FruitBasketError::UnknownBasket);
    }
    if ctx.reverting {
        return Ok(());
    }
    let ghost m = ctx@;
    let ghost magic = ctx.magic;
    let n = ctx.number_of_components as usize;
    let mut i: usize = 0;
    while i < n
        invariant
            i <= n,
            n == m.number_of_components,
            m.wf(),
            ctx.magic == magic,
            ctx@ == (TradeContextModel {
                token_amounts: ctx@.token_amounts,
                tokens_treated: ctx@.tokens_treated,
                ..m
            }),
            ctx@.token_amounts.len() == MAX_NB_COMPONENTS,
            ctx@.tokens_treated.len() == MAX_NB_COMPONENTS,
            forall|j: int| 0 <= j < i ==> #[trigger] ctx@.token_amounts[j] == reverted_amount(m, j),
            forall|j: int| 0 <= j < i ==> #[trigger] ctx@.tokens_treated[j] == reverted_treated(m, j),
            forall|j: int| i <= j < MAX_NB_COMPONENTS ==> #[trigger] ctx@.token_amounts[j] == m.token_amounts[j],
            forall|j: int| i <= j < MAX_NB_COMPONENTS ==> #[trigger] ctx@.tokens_treated[j] == m.tokens_treated[j],
        decreases n - i,
    {
        let remaining = ctx.token_amounts[i];
        let initial = ctx.initial_token_amounts[i];
        if ctx.tokens_treated[i] {
            ctx.token_amounts.set(i, initial);
            ctx.tokens_treated.set(i, false);
        } else if remaining == initial {
            ctx.tokens_treated.set(i, true);
        } else {
            ctx.token_amounts.set(i, initial - remaining);
        }
        i = i + 1;
    }
    ctx.reverting = true;
    ctx.usdc_amount_left = match ctx.side {
        ContextSide::Buy => 0,
        ContextSide::Sell => quote_pool_balance,
    };
    assert(ctx@.token_amounts =~= Seq::new(MAX_NB_COMPONENTS as nat, |i: int| reverted_amount(m, i)));
    assert(ctx@.tokens_treated =~= Seq::new(MAX_NB_COMPONENTS as nat, |i: int| reverted_treated(m, i)));
    assert(ctx@ =~= revert_state(m, accounts.fruitbasket@, quote_pool_balance));
    Ok(())
}

/// The transfers that close a trade.
#[derive(Clone, Copy, Debug, PartialEq, Eq, Structural)]
pub struct Settlement {
    /// Basket units to mint to the trader.
    pub mint_basket_tokens: u64,
    /// Quote units to pay from the transaction pool to the trader.
    pub refund_quote: u64,
}

/// What a treated trade pays out. A completed buy delivers its basket units
/// and the unspent escrow; a completed sell its proceeds. A reverted buy
/// returns the escrow, a reverted sell mints the burnt basket units back.
pub open spec fn settlement_of(m: TradeContextModel) -> Settlement {
    if m.reverting {
        match m.side {
            ContextSide::Buy => Settlement { mint_basket_tokens: 0, refund_quote: m.initial_usdc_transfer_amount },
            ContextSide::Sell => Settlement { mint_basket_tokens: m.amount, refund_quote: 0 },
        }
    } else {
        match m.side {
            ContextSide::Buy => Settlement { mint_basket_tokens: m.amount, refund_quote: m.usdc_amount_left },
            ContextSide::Sell => Settlement { mint_basket_tokens: 0, refund_quote: m.usdc_amount_left },
        }
    }
}

pub open spec fn finalize_outcome(
    m: TradeContextModel,
    basket: Seq<u8>,
    quote_token_account: Seq<u8>,
    basket_token_account: Seq<u8>,
) -> Result<Settlement, FruitBasketError> {
    if !m.all_treated() {
        Err(FruitBasketError::NotAllTokensTreatedBeforeFinalize)
    } else if m.basket != basket {
        Err(FruitBasketError::UnknownBasket)
    } else if m.quote_token_account != quote_token_account || m.basket_token_account
        != basket_token_account {
        Err(FruitBasketError::AccountsMismatch)
    } else {
        Ok(settlement_of(m))
    }
}

/// Settles the trade `ctx` once every component is treated: returns what
/// the caller must mint and pay out before closing the context.
pub fn finalize_context(ctx: &BasketTradeContext, accounts: &FinalizeContext) -> (r: Result<
    Settlement,
    FruitBasketError,
>)
    requires
        ctx@.wf(),
    ensures
        r == finalize_outcome(
            ctx@,
            accounts.fruitbasket@,
            accounts.quote_token_account@,
            accounts.basket_token_account@,
        ),
{
    let n = ctx.number_of_components as usize;
    let mut i: usize = 0;
    while i < n
        invariant
            i <= n,
            n == ctx@.number_of_components,
            ctx@.wf(),
            forall|j: int| 0 <= j < i ==> #[trigger] ctx@.tokens_treated[j],
        decreases n - i,
    {
        if !ctx.tokens_treated[i] {
            return Err(FruitBasketError::NotAllTokensTreatedBeforeFinalize);
        }
        i = i + 1;
    }
    if !ctx.basket.same_as(&accounts.fruitbasket) {
        return Err(FruitBasketError::UnknownBasket);
    }
    if !ctx.quote_token_account.same_as(&accounts.quote_token_account)
        || !ctx.basket_token_account.same_as(&accounts.basket_token_account) {
        return Err(FruitBasketError::AccountsMismatch);
    }
    let settlement = if ctx.reverting {
        match ctx.side {
            ContextSide::Buy => Settlement { mint_basket_tokens: 0, refund_quote: ctx.initial_usdc_transfer_amount },
            ContextSide::Sell => Settlement { mint_basket_tokens: ctx.amount, refund_quote: 0 },
        }
    } else {
        match ctx.side {
            ContextSide::Buy => Settlement { mint_basket_tokens: ctx.amount, refund_quote: ctx.usdc_amount_left },
            ContextSide::Sell => Settlement { mint_basket_tokens: 0, refund_quote: ctx.usdc_amount_left },
        }
    };
    Ok(settlement)
}

} // verus!
