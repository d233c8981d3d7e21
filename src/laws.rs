//! Properties of the trade-context state machine that relate several
//! operations or several calls.
use crate::arith::{pow10, lemma_pow10_positive};
use crate::context::{
    ceil_div,
    init_outcome,
    reference_price,
    component_slot,
    fill_in_basket_units,
    fill_outcome,
    fill_state,
    filled_quantity,
    lemma_fill_fits,
    native_amount,
    plan_outcome,
    plan_state,
    revert_outcome,
    revert_state,
    AssetAction,
    FillObservation,
    OrderRequest,
};
use crate::states::{
    index_of,
    lemma_index_of_range,
    Basket,
    ContextSide,
    TradeContextModel,
    MAX_NB_COMPONENTS,
};
use vstd::arithmetic::div_mod::{
    lemma_div_is_ordered,
    lemma_fundamental_div_mod,
    lemma_fundamental_div_mod_converse,
    lemma_mod_bound,
};
use vstd::prelude::*;

verus! {

/// A buy never escrows less than its reference price (the basket price plus
/// its confidence), and a buy whose limit is below the reference price is
/// refused before anything is escrowed.
pub proof fn lemma_buy_slippage_bound(
    basket: Basket,
    supplied_pool: Seq<u8>,
    group_pool: Seq<u8>,
    amount: u64,
    limit: u64,
)
    ensures
        ({
            let r = reference_price(ContextSide::Buy, basket.last_price as int, basket.confidence as int);
            let o = init_outcome(basket, supplied_pool, group_pool, ContextSide::Buy, amount, limit);
            &&& o is Ok ==> o->Ok_0 >= r
            &&& limit < r ==> o == Err::<u64, crate::errors::FruitBasketError>(
                crate::errors::FruitBasketError::TooLowMaximumBuyPrice,
            )
        }),
{
}

/// Processing a component that is already treated is a no-op: planning asks
/// for no order and changes nothing, and booking a fill on it changes
/// nothing. Planning twice changes no more than planning once.
pub proof fn lemma_processing_treated_component_is_noop(
    m: TradeContextModel,
    basket: Seq<u8>,
    mint: Seq<u8>,
    token_decimal: u8,
    lot_size: u64,
    o: OrderRequest,
    obs: FillObservation,
)
    requires
        m.wf(),
    ensures
        m.basket == basket && component_slot(m, mint) >= 0 && m.tokens_treated[component_slot(m, mint)]
            ==> plan_outcome(m, basket, mint, token_decimal, lot_size) == Ok::<
            AssetAction,
            crate::errors::FruitBasketError,
        >(AssetAction::Nothing) && plan_state(m, basket, mint, token_decimal, lot_size) == m,
        o.component_index < m.number_of_components && m.tokens_treated[o.component_index as int]
            ==> fill_outcome(m, o, obs) is Ok && fill_state(m, o, obs) == m,
        plan_state(
            plan_state(m, basket, mint, token_decimal, lot_size),
            basket,
            mint,
            token_decimal,
            lot_size,
        ) == plan_state(m, basket, mint, token_decimal, lot_size),
{
    let i = component_slot(m, mint);
    lemma_index_of_range(m.token_mints, mint, 0, m.number_of_components as int);
    let p = plan_state(m, basket, mint, token_decimal, lot_size);
    assert(p.token_mints == m.token_mints);
    assert(component_slot(p, mint) == i);
    if p != m {
        assert(p.tokens_treated[i]);
    }
}

/// A filled quantity, booked on the basket scale, is the fill itself for an
/// asset with six decimals.
pub proof fn lemma_fill_in_basket_units_at_six_decimals(f: nat)
    ensures
        fill_in_basket_units(f, 6) == f,
{
    assert(pow10(0) == 1);
    assert(f / 1 == f);
}

/// Booking a fill lowers what is left of the component by the fill (on the
/// basket scale), so its initial amount minus what is left grows by each
/// fill and is what has been filled so far.
pub proof fn lemma_fill_accumulates(m: TradeContextModel, o: OrderRequest, obs: FillObservation)
    requires
        m.wf(),
        fill_outcome(m, o, obs) is Ok,
        !m.tokens_treated[o.component_index as int],
    ensures
        ({
            let i = o.component_index as int;
            let m2 = fill_state(m, o, obs);
            m2.initial_token_amounts[i] - m2.token_amounts[i] == m.initial_token_amounts[i]
                - m.token_amounts[i] + fill_in_basket_units(
                filled_quantity(m.trades_buy(), obs) as nat,
                o.token_decimal as nat,
            )
        }),
{
    let i = o.component_index as int;
    lemma_fill_fits(
        m.token_amounts[i] as nat,
        filled_quantity(m.trades_buy(), obs) as nat,
        o.token_decimal as nat,
    );
}

/// A revert turns the direction traded round and leaves to trade, for each
/// component, what was filled of it: all of it for a treated component
/// (which is opened again), the filled part for a partly filled one, and
/// nothing for an untouched one (which is marked treated). Reverting again
/// changes nothing.
pub proof fn lemma_revert_unwinds_fills(m: TradeContextModel, basket: Seq<u8>, quote_pool_balance: u64)
    requires
        m.wf(),
        m.basket == basket,
        !m.reverting,
    ensures
        ({
            let r = revert_state(m, basket, quote_pool_balance);
            &&& revert_outcome(m, basket) is Ok
            &&& r.wf()
            &&& r.reverting
            &&& r.trades_buy() != m.trades_buy()
            &&& forall|i: int|
                0 <= i < m.number_of_components && #[trigger] m.tokens_treated[i] ==> r.token_amounts[i]
                    == m.initial_token_amounts[i] && !r.tokens_treated[i]
            &&& forall|i: int|
                0 <= i < m.number_of_components && !#[trigger] m.tokens_treated[i]
                    && m.token_amounts[i] != m.initial_token_amounts[i] ==> r.token_amounts[i]
                    == m.initial_token_amounts[i] - m.token_amounts[i] && !r.tokens_treated[i]
            &&& forall|i: int|
                0 <= i < m.number_of_components && !#[trigger] m.tokens_treated[i]
                    && m.token_amounts[i] == m.initial_token_amounts[i] ==> r.tokens_treated[i]
            &&& revert_state(r, basket, quote_pool_balance) == r
        }),
{
    let r = revert_state(m, basket, quote_pool_balance);
    assert forall|i: int| 0 <= i < MAX_NB_COMPONENTS implies #[trigger] r.token_amounts[i]
        <= r.initial_token_amounts[i] by {
        assert(m.token_amounts[i] <= m.initial_token_amounts[i]);
    }
}

/// Less left on the basket scale is no more in native units.
pub proof fn lemma_native_amount_monotone(a: nat, b: nat, td: nat)
    requires
        a <= b,
    ensures
        native_amount(a, td) <= native_amount(b, td),
{
    if td >= 6 {
        let p = pow10((td - 6) as nat);
        assert(a * p <= b * p) by (nonlinear_arith)
            requires
                a <= b,
        ;
    } else {
        lemma_pow10_positive((6 - td) as nat);
        lemma_div_is_ordered(a as int, b as int, pow10((6 - td) as nat) as int);
    }
}

/// Once the largest whole number of lots that is left has been filled, less
/// than a lot is left.
pub proof fn lemma_full_fill_leaves_less_than_a_lot(a: nat, td: nat, lot: nat)
    requires
        lot >= 1,
    ensures
        ({
            let n = native_amount(a, td);
            let f = (n / lot) * lot;
            &&& f <= n
            &&& fill_in_basket_units(f, td) <= a
            &&& native_amount((a - fill_in_basket_units(f, td)) as nat, td) < lot
        }),
{
    let n = native_amount(a, td);
    let q = n / lot;
    let f = q * lot;
    lemma_fundamental_div_mod(n as int, lot as int);
    lemma_mod_bound(n as int, lot as int);
    assert(f <= n && n - f < lot) by (nonlinear_arith)
        requires
            n == lot * q + n % lot,
            0 <= n % lot < lot,
            f == q * lot,
    ;
    lemma_fill_fits(a, f, td);
    let c = fill_in_basket_units(f, td);
    if td >= 6 {
        let p = pow10((td - 6) as nat);
        lemma_pow10_positive((td - 6) as nat);
        lemma_fundamental_div_mod(f as int, p as int);
        lemma_mod_bound(f as int, p as int);
        assert(c * p >= f) by (nonlinear_arith)
            requires
                c == ceil_div(f, p),
                f == p * (f / p) + f % p,
                0 <= f % p < p,
                ceil_div(f, p) == (if (f / p) * p == f {
                    f / p
                } else {
                    f / p + 1
                }),
        ;
        assert((a - c) * p == a * p - c * p) by (nonlinear_arith);
    } else {
        let p = pow10((6 - td) as nat);
        lemma_pow10_positive((6 - td) as nat);
        lemma_fundamental_div_mod(a as int, p as int);
        lemma_mod_bound(a as int, p as int);
        let x: int = (a / p) as int;
        let rm: int = (a % p) as int;
        let ai: int = a as int;
        let ci: int = c as int;
        let fi: int = f as int;
        let pi: int = p as int;
        assert(ai - ci == (x - fi) * pi + rm) by (nonlinear_arith)
            requires
                ai == pi * x + rm,
                ci == fi * pi,
        ;
        assert(f <= a / p);
        lemma_fundamental_div_mod_converse((a - c) as int, p as int, (a / p - f) as int, (a % p) as int);
    }
}


/// What an order book with enough liquidity reports for `o`: the whole
/// order filled, with the quote pool as it was.
pub open spec fn full_fill(o: OrderRequest) -> FillObservation {
    let q = (o.max_coin_qty * o.lot_size) as u64;
    if o.buy {
        FillObservation {
            token_pool_before: 0,
            token_pool_after: q,
            quote_pool_before: 0,
            quote_pool_after: 0,
        }
    } else {
        FillObservation {
            token_pool_before: q,
            token_pool_after: 0,
            quote_pool_before: 0,
            quote_pool_after: 0,
        }
    }
}

/// One processing of the asset `mint`: planning, and booking the full fill
/// of the order where one is placed.
pub open spec fn full_round(
    m: TradeContextModel,
    basket: Seq<u8>,
    mint: Seq<u8>,
    token_decimal: u8,
    lot_size: u64,
) -> TradeContextModel {
    let p = plan_state(m, basket, mint, token_decimal, lot_size);
    match plan_outcome(m, basket, mint, token_decimal, lot_size) {
        Ok(AssetAction::PlaceOrder(o)) => fill_state(p, o, full_fill(o)),
        _ => p,
    }
}

/// Processing the assets `mints`, in that order, each on its own order book
/// (decimals `decimals(mint)`, lot `lots(mint)`).
pub open spec fn run_rounds(
    m: TradeContextModel,
    basket: Seq<u8>,
    mints: Seq<Seq<u8>>,
    decimals: spec_fn(Seq<u8>) -> u8,
    lots: spec_fn(Seq<u8>) -> u64,
) -> TradeContextModel
    decreases mints.len(),
{
    if mints.len() == 0 {
        m
    } else {
        let last = mints[mints.len() - 1];
        full_round(
            run_rounds(m, basket, mints.subrange(0, mints.len() - 1), decimals, lots),
            basket,
            last,
            decimals(last),
            lots(last),
        )
    }
}

/// What processing keeps: everything but the amounts left, the treated
/// flags and the quote held; and the amounts left stay within the initial
/// ones, and treated components stay treated.
pub open spec fn keeps_frame(m: TradeContextModel, m2: TradeContextModel) -> bool {
    &&& m2.basket == m.basket
    &&& m2.side == m.side
    &&& m2.reverting == m.reverting
    &&& m2.number_of_components == m.number_of_components
    &&& m2.token_mints == m.token_mints
    &&& m2.initial_token_amounts == m.initial_token_amounts
    &&& m2.wf()
    &&& forall|i: int| 0 <= i < MAX_NB_COMPONENTS && #[trigger] m.tokens_treated[i] ==> m2.tokens_treated[i]
}

/// Every component has its own asset, trades on a book with a positive lot,
/// and its initial amount fits a native `u64` quantity.
pub open spec fn processable(
    m: TradeContextModel,
    decimals: spec_fn(Seq<u8>) -> u8,
    lots: spec_fn(Seq<u8>) -> u64,
) -> bool {
    &&& forall|i: int, j: int|
        0 <= i < j < m.number_of_components ==> #[trigger] m.token_mints[i] != #[trigger] m.token_mints[j]
    &&& forall|i: int|
        0 <= i < m.number_of_components ==> lots(#[trigger] m.token_mints[i]) >= 1 && native_amount(
            m.initial_token_amounts[i] as nat,
            decimals(m.token_mints[i]) as nat,
        ) <= u64::MAX
}

proof fn lemma_index_of_first(keys: Seq<Seq<u8>>, key: Seq<u8>, from: int, i: int, n: int)
    requires
        from <= i < n,
        keys[i] == key,
        forall|j: int| from <= j < i ==> keys[j] != key,
    ensures
        index_of(keys, key, from, n) == i,
    decreases i - from,
{
    if from < i {
        lemma_index_of_first(keys, key, from + 1, i, n);
    }
}

proof fn lemma_fill_state_keeps_frame(m: TradeContextModel, o: OrderRequest, obs: FillObservation)
    requires
        m.wf(),
    ensures
        keeps_frame(m, fill_state(m, o, obs)),
{
    let i = o.component_index as int;
    if fill_outcome(m, o, obs) is Ok && !m.tokens_treated[i] {
        lemma_fill_fits(
            m.token_amounts[i] as nat,
            filled_quantity(m.trades_buy(), obs) as nat,
            o.token_decimal as nat,
        );
    }
}

/// One round keeps the frame, and treats the component of `mint`.
proof fn lemma_full_round_treats(
    m: TradeContextModel,
    basket: Seq<u8>,
    mint: Seq<u8>,
    token_decimal: u8,
    lot_size: u64,
)
    requires
        m.wf(),
        m.basket == basket,
        component_slot(m, mint) >= 0 ==> lot_size >= 1 && native_amount(
            m.initial_token_amounts[component_slot(m, mint)] as nat,
            token_decimal as nat,
        ) <= u64::MAX,
    ensures
        keeps_frame(m, full_round(m, basket, mint, token_decimal, lot_size)),
        component_slot(m, mint) >= 0 ==> full_round(
            m,
            basket,
            mint,
            token_decimal,
            lot_size,
        ).tokens_treated[component_slot(m, mint)],
{
    let i = component_slot(m, mint);
    lemma_index_of_range(m.token_mints, mint, 0, m.number_of_components as int);
    let p = plan_state(m, basket, mint, token_decimal, lot_size);
    assert(keeps_frame(m, p));
    if i >= 0 && !m.tokens_treated[i] {
        let a = m.token_amounts[i] as nat;
        let td = token_decimal as nat;
        lemma_native_amount_monotone(a, m.initial_token_amounts[i] as nat, td);
        let n = native_amount(a, td);
        if n / (lot_size as nat) > 0 {
            let o = match plan_outcome(m, basket, mint, token_decimal, lot_size) {
                Ok(AssetAction::PlaceOrder(o)) => o,
                _ => arbitrary(),
            };
            assert(p == m);
            lemma_full_fill_leaves_less_than_a_lot(a, td, lot_size as nat);
            let obs = full_fill(o);
            assert(filled_quantity(m.trades_buy(), obs) == (n / (lot_size as nat)) * lot_size);
            assert(fill_outcome(m, o, obs) is Ok);
            lemma_fill_state_keeps_frame(m, o, obs);
        }
    }
}

/// With enough liquidity, processing converges: whatever the order of the
/// calls and however often each is repeated, once every component's asset
/// has been processed at least once, every component is treated.
pub proof fn lemma_processing_converges(
    m: TradeContextModel,
    basket: Seq<u8>,
    mints: Seq<Seq<u8>>,
    decimals: spec_fn(Seq<u8>) -> u8,
    lots: spec_fn(Seq<u8>) -> u64,
)
    requires
        m.wf(),
        m.basket == basket,
        processable(m, decimals, lots),
        forall|i: int| 0 <= i < m.number_of_components ==> mints.contains(#[trigger] m.token_mints[i]),
    ensures
        run_rounds(m, basket, mints, decimals, lots).all_treated(),
{
    lemma_rounds_treat_processed(m, basket, mints, decimals, lots);
    let r = run_rounds(m, basket, mints, decimals, lots);
    assert forall|i: int| 0 <= i < r.number_of_components implies #[trigger] r.tokens_treated[i] by {
        assert(mints.contains(m.token_mints[i]));
    }
}

proof fn lemma_rounds_treat_processed(
    m: TradeContextModel,
    basket: Seq<u8>,
    mints: Seq<Seq<u8>>,
    decimals: spec_fn(Seq<u8>) -> u8,
    lots: spec_fn(Seq<u8>) -> u64,
)
    requires
        m.wf(),
        m.basket == basket,
        processable(m, decimals, lots),
    ensures
        keeps_frame(m, run_rounds(m, basket, mints, decimals, lots)),
        forall|i: int|
            0 <= i < m.number_of_components && mints.contains(#[trigger] m.token_mints[i])
                ==> run_rounds(m, basket, mints, decimals, lots).tokens_treated[i],
    decreases mints.len(),
{
    if mints.len() > 0 {
        let prefix = mints.subrange(0, mints.len() - 1);
        let last = mints[mints.len() - 1];
        lemma_rounds_treat_processed(m, basket, prefix, decimals, lots);
        let m1 = run_rounds(m, basket, prefix, decimals, lots);
        let k = component_slot(m1, last);
        lemma_index_of_range(m1.token_mints, last, 0, m1.number_of_components as int);
        lemma_full_round_treats(m1, basket, last, decimals(last), lots(last));
        let m2 = full_round(m1, basket, last, decimals(last), lots(last));
        assert(m2 == run_rounds(m, basket, mints, decimals, lots));
        assert forall|i: int|
            0 <= i < m.number_of_components && mints.contains(#[trigger] m.token_mints[i]) implies m2.tokens_treated[i] by {
            let x = m.token_mints[i];
            let j = choose|j: int| 0 <= j < mints.len() && mints[j] == x;
            if j < mints.len() - 1 {
                assert(prefix[j] == x);
                assert(prefix.contains(x));
            } else {
                assert(x == last);
                assert forall|j2: int| 0 <= j2 < i implies m1.token_mints[j2] != last by {
                    assert(m.token_mints[j2] != m.token_mints[i]);
                }
                lemma_index_of_first(m1.token_mints, last, 0, i, m1.number_of_components as int);
            }
        }
    }
}

} // verus!
