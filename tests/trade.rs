use fruitbasket::context::{
    finalize_context, init_trade_context, plan_token_for_context, process_token_for_context, revert_trade_context,
    AssetAction, FillObservation, OpeningTransfer, OrderRequest, Settlement,
};
use fruitbasket::errors::FruitBasketError;
use fruitbasket::instructions::{FinalizeContext, InitTradeContext, InitializeGroup, ProcessTokenOnContext, RevertTradeContext};
use fruitbasket::key::AccountKey;
use fruitbasket::registry::initialize_group;
use fruitbasket::states::{Basket, BasketComponentDescription, BasketTradeContext, ContextSide, FruitBasketGroup};

const BASKET: u8 = 50;
const POOL: u8 = 3;
const QUOTE_ACCOUNT: u8 = 60;
const BASKET_ACCOUNT: u8 = 61;

fn key(b: u8) -> AccountKey {
    AccountKey::new([b; 32])
}

fn group() -> FruitBasketGroup {
    let accounts = InitializeGroup { owner: key(1), quote_token_mint: key(2), quote_token_transaction_pool: key(POOL) };
    initialize_group(&accounts, b"USDC")
}

/// Two components, 2 and 1 units per basket unit, priced 250.00 give or take 2.50.
fn basket() -> Basket {
    let components = vec![
        BasketComponentDescription { token_mint: key(1), amount: 2_000_000, decimal: 6 },
        BasketComponentDescription { token_mint: key(2), amount: 1_000_000, decimal: 6 },
    ];
    Basket {
        magic: 0,
        basket_name: b"fruits".to_vec(),
        desc: vec![],
        number_of_components: 2,
        components,
        basket_mint: key(40),
        last_price: 250_000_000,
        confidence: 2_500_000,
        decimal: 6,
    }
}

fn init_accounts(pool: u8) -> InitTradeContext {
    InitTradeContext {
        user: key(70),
        basket: key(BASKET),
        quote_token_account: key(QUOTE_ACCOUNT),
        basket_token_account: key(BASKET_ACCOUNT),
        trade_context: key(71),
        quote_token_transaction_pool: key(pool),
    }
}

fn open(side: ContextSide, amount: u64, limit: u64) -> Result<(BasketTradeContext, OpeningTransfer), FruitBasketError> {
    init_trade_context(&init_accounts(POOL), &group(), &basket(), side, amount, limit, 1_700_000_000)
}

fn on(mint: u8) -> ProcessTokenOnContext {
    ProcessTokenOnContext { trade_context: key(71), fruitbasket: key(BASKET), token_mint: key(mint) }
}

fn finalize_accounts() -> FinalizeContext {
    FinalizeContext {
        trade_context: key(71),
        fruitbasket: key(BASKET),
        quote_token_account: key(QUOTE_ACCOUNT),
        basket_token_account: key(BASKET_ACCOUNT),
    }
}

fn revert_accounts() -> RevertTradeContext {
    RevertTradeContext { trade_context: key(71), fruitbasket: key(BASKET), quote_token_transaction_pool: key(POOL) }
}

fn order(action: AssetAction) -> OrderRequest {
    match action {
        AssetAction::PlaceOrder(o) => o,
        AssetAction::Nothing => panic!("an order was expected"),
    }
}

/// Balances around an order that moved `filled` units of the asset and
/// `quote` quote units, in the order's direction.
fn observed(buy: bool, filled: u64, quote: u64) -> FillObservation {
    if buy {
        FillObservation {
            token_pool_before: 500,
            token_pool_after: 500 + filled,
            quote_pool_before: 1_000_000_000,
            quote_pool_after: 1_000_000_000 - quote,
        }
    } else {
        FillObservation {
            token_pool_before: 500 + filled,
            token_pool_after: 500,
            quote_pool_before: 1_000_000_000,
            quote_pool_after: 1_000_000_000 + quote,
        }
    }
}

/// Plans and fully fills the component `mint` on a book with lot one.
fn fill_fully(ctx: &mut BasketTradeContext, mint: u8, quote: u64) {
    match plan_token_for_context(ctx, &on(mint), 6, 1).unwrap() {
        AssetAction::PlaceOrder(o) => {
            let obs = observed(o.buy, o.max_coin_qty, quote);
            assert_eq!(process_token_for_context(ctx, &o, &obs), Ok(()));
        }
        AssetAction::Nothing => {}
    }
}

#[test]
fn buy_opens_with_escrow_of_worst_case_price() {
    let (ctx, transfer) = open(ContextSide::Buy, 1_000_000, 300_000_000).unwrap();
    // reference 252.50, plus a tenth
    assert_eq!(transfer, OpeningTransfer::EscrowQuote(277_750_000));
    assert_eq!(ctx.usdc_amount_left, 277_750_000);
    assert_eq!(ctx.initial_usdc_transfer_amount, 277_750_000);
    assert_eq!(ctx.amount, 1_000_000);
    assert!(!ctx.reverting);
    assert_eq!(ctx.number_of_components, 2);
    assert_eq!(ctx.token_amounts, vec![2_000_000, 1_000_000, 0, 0, 0, 0, 0, 0, 0, 0]);
    assert_eq!(ctx.initial_token_amounts, ctx.token_amounts);
    assert_eq!(ctx.tokens_treated, vec![false, false, true, true, true, true, true, true, true, true]);
    assert!(ctx.token_mints[0].same_as(&key(1)));
    assert!(ctx.token_mints[1].same_as(&key(2)));
    assert!(ctx.basket.same_as(&key(BASKET)));
    assert_eq!(ctx.created_on, 1_700_000_000);
    assert!(ctx.is_well_formed());
}

#[test]
fn buy_escrow_is_capped_by_limit_and_never_below_reference() {
    let (_, transfer) = open(ContextSide::Buy, 1_000_000, 260_000_000).unwrap();
    assert_eq!(transfer, OpeningTransfer::EscrowQuote(260_000_000));
    let (_, transfer) = open(ContextSide::Buy, 1_000_000, 252_500_000).unwrap();
    assert_eq!(transfer, OpeningTransfer::EscrowQuote(252_500_000));
}

#[test]
fn buy_with_limit_below_reference_is_refused() {
    let r = open(ContextSide::Buy, 1_000_000, 252_499_999);
    assert_eq!(r.map(|(_, t)| t), Err(FruitBasketError::TooLowMaximumBuyPrice));
    let r = open(ContextSide::Buy, 1_000_000, 100_000_000);
    assert_eq!(r.map(|(_, t)| t), Err(FruitBasketError::TooLowMaximumBuyPrice));
}

#[test]
fn buy_into_unknown_pool_is_refused() {
    let r = init_trade_context(&init_accounts(4), &group(), &basket(), ContextSide::Buy, 1_000_000, 300_000_000, 0);
    assert_eq!(r.map(|(_, t)| t), Err(FruitBasketError::AccountsMismatch));
}

#[test]
fn sell_opens_by_burning() {
    let (ctx, transfer) = open(ContextSide::Sell, 3_000_000, 200_000_000).unwrap();
    assert_eq!(transfer, OpeningTransfer::BurnBasketTokens(3_000_000));
    assert_eq!(ctx.usdc_amount_left, 0);
    assert_eq!(ctx.initial_usdc_transfer_amount, 0);
    assert_eq!(ctx.token_amounts[..2], [6_000_000, 3_000_000]);
    let r = open(ContextSide::Sell, 3_000_000, 247_500_001);
    assert_eq!(r.map(|(_, t)| t), Err(FruitBasketError::TooHighMinimumSellPrice));
    assert!(open(ContextSide::Sell, 3_000_000, 247_500_000).is_ok());
}

#[test]
fn opening_with_overflowing_component_amount_is_refused() {
    let mut b = basket();
    b.components[1] = BasketComponentDescription { token_mint: key(2), amount: u64::MAX, decimal: 0 };
    let r = init_trade_context(&init_accounts(POOL), &group(), &b, ContextSide::Sell, u64::MAX, 0, 0);
    assert_eq!(r.map(|(_, t)| t), Err(FruitBasketError::ArithmeticOverflow));
}

#[test]
fn partial_fill_leaves_component_untreated() {
    let (mut ctx, _) = open(ContextSide::Buy, 1_000_000, 300_000_000).unwrap();
    let o = order(plan_token_for_context(&mut ctx, &on(1), 6, 1).unwrap());
    assert_eq!(o.component_index, 0);
    assert!(o.buy);
    assert_eq!(o.max_coin_qty, 2_000_000);
    assert_eq!(o.max_native_pc_qty, 277_750_000);
    let obs = observed(true, 1_200_000, 120_000_000);
    assert_eq!(process_token_for_context(&mut ctx, &o, &obs), Ok(()));
    assert_eq!(ctx.token_amounts[0], 800_000);
    assert!(!ctx.tokens_treated[0]);
    assert_eq!(ctx.usdc_amount_left, 157_750_000);
    assert_eq!(finalize_context(&ctx, &finalize_accounts()), Err(FruitBasketError::NotAllTokensTreatedBeforeFinalize));
}

#[test]
fn processing_treated_component_changes_nothing() {
    let (mut ctx, _) = open(ContextSide::Buy, 1_000_000, 300_000_000).unwrap();
    fill_fully(&mut ctx, 1, 100_000_000);
    assert!(ctx.tokens_treated[0]);
    let before = ctx.clone();
    assert_eq!(plan_token_for_context(&mut ctx, &on(1), 6, 1), Ok(AssetAction::Nothing));
    assert_eq!(plan_token_for_context(&mut ctx, &on(1), 6, 1), Ok(AssetAction::Nothing));
    let stale = OrderRequest { component_index: 0, buy: true, max_coin_qty: 5, max_native_pc_qty: 5, token_decimal: 6, lot_size: 1 };
    assert_eq!(process_token_for_context(&mut ctx, &stale, &observed(true, 5, 5)), Ok(()));
    assert_eq!(ctx.token_amounts, before.token_amounts);
    assert_eq!(ctx.tokens_treated, before.tokens_treated);
    assert_eq!(ctx.usdc_amount_left, before.usdc_amount_left);
}

#[test]
fn asset_outside_basket_needs_nothing() {
    let (mut ctx, _) = open(ContextSide::Buy, 1_000_000, 300_000_000).unwrap();
    assert_eq!(plan_token_for_context(&mut ctx, &on(9), 6, 1), Ok(AssetAction::Nothing));
    assert_eq!(ctx.tokens_treated[..2], [false, false]);
}

#[test]
fn processing_in_any_order_converges() {
    let (mut ctx, _) = open(ContextSide::Buy, 1_000_000, 300_000_000).unwrap();
    fill_fully(&mut ctx, 2, 50_000_000);
    fill_fully(&mut ctx, 2, 0);
    fill_fully(&mut ctx, 9, 0);
    assert!(!ctx.tokens_treated[0]);
    fill_fully(&mut ctx, 1, 200_000_000);
    fill_fully(&mut ctx, 1, 0);
    assert_eq!(ctx.tokens_treated, vec![true; 10]);
    assert_eq!(ctx.token_amounts[..2], [0, 0]);
    assert_eq!(ctx.usdc_amount_left, 27_750_000);
    assert_eq!(
        finalize_context(&ctx, &finalize_accounts()),
        Ok(Settlement { mint_basket_tokens: 1_000_000, refund_quote: 27_750_000 })
    );
}

#[test]
fn sell_completes_and_pays_proceeds() {
    let (mut ctx, _) = open(ContextSide::Sell, 1_000_000, 200_000_000).unwrap();
    let o = order(plan_token_for_context(&mut ctx, &on(1), 6, 1).unwrap());
    assert!(!o.buy);
    assert_eq!(o.max_native_pc_qty, u64::MAX);
    assert_eq!(process_token_for_context(&mut ctx, &o, &observed(false, 2_000_000, 190_000_000)), Ok(()));
    fill_fully(&mut ctx, 2, 49_000_000);
    assert_eq!(
        finalize_context(&ctx, &finalize_accounts()),
        Ok(Settlement { mint_basket_tokens: 0, refund_quote: 239_000_000 })
    );
}

#[test]
fn revert_unwinds_what_was_filled() {
    let (mut ctx, _) = open(ContextSide::Buy, 1_000_000, 300_000_000).unwrap();
    let o = order(plan_token_for_context(&mut ctx, &on(1), 6, 1).unwrap());
    assert_eq!(process_token_for_context(&mut ctx, &o, &observed(true, 700_000, 70_000_000)), Ok(()));
    let o = order(plan_token_for_context(&mut ctx, &on(1), 6, 1).unwrap());
    assert_eq!(o.max_coin_qty, 1_300_000);
    assert_eq!(process_token_for_context(&mut ctx, &o, &observed(true, 500_000, 50_000_000)), Ok(()));
    assert_eq!(ctx.initial_token_amounts[0] - ctx.token_amounts[0], 1_200_000);

    assert_eq!(revert_trade_context(&mut ctx, &revert_accounts(), 5), Ok(()));
    assert!(ctx.reverting);
    assert!(!ctx.trades_buy());
    assert_eq!(ctx.usdc_amount_left, 0);
    assert_eq!(ctx.token_amounts[..2], [1_200_000, 1_000_000]);
    assert_eq!(ctx.tokens_treated[..2], [false, true]);
    assert!(ctx.is_well_formed());

    // reverting again changes nothing
    assert_eq!(revert_trade_context(&mut ctx, &revert_accounts(), 99), Ok(()));
    assert_eq!(ctx.usdc_amount_left, 0);
    assert_eq!(ctx.token_amounts[..2], [1_200_000, 1_000_000]);

    assert_eq!(plan_token_for_context(&mut ctx, &on(2), 6, 1), Ok(AssetAction::Nothing));
    let o = order(plan_token_for_context(&mut ctx, &on(1), 6, 1).unwrap());
    assert!(!o.buy);
    assert_eq!(o.max_coin_qty, 1_200_000);
    assert_eq!(process_token_for_context(&mut ctx, &o, &observed(false, 1_200_000, 119_000_000)), Ok(()));
    assert!(ctx.tokens_treated[0]);
    assert_eq!(ctx.usdc_amount_left, 119_000_000);
    assert_eq!(
        finalize_context(&ctx, &finalize_accounts()),
        Ok(Settlement { mint_basket_tokens: 0, refund_quote: 277_750_000 })
    );
}

#[test]
fn revert_reopens_treated_components() {
    let (mut ctx, _) = open(ContextSide::Sell, 1_000_000, 200_000_000).unwrap();
    fill_fully(&mut ctx, 1, 180_000_000);
    assert!(ctx.tokens_treated[0]);
    assert_eq!(revert_trade_context(&mut ctx, &revert_accounts(), 180_000_000), Ok(()));
    assert!(ctx.trades_buy());
    assert_eq!(ctx.usdc_amount_left, 180_000_000);
    assert_eq!(ctx.token_amounts[..2], [2_000_000, 1_000_000]);
    assert_eq!(ctx.tokens_treated[..2], [false, true]);
    fill_fully(&mut ctx, 1, 179_000_000);
    assert_eq!(ctx.usdc_amount_left, 1_000_000);
    assert_eq!(
        finalize_context(&ctx, &finalize_accounts()),
        Ok(Settlement { mint_basket_tokens: 1_000_000, refund_quote: 0 })
    );
}

#[test]
fn revert_of_other_basket_is_refused() {
    let (mut ctx, _) = open(ContextSide::Buy, 1_000_000, 300_000_000).unwrap();
    let accounts = RevertTradeContext { trade_context: key(71), fruitbasket: key(51), quote_token_transaction_pool: key(POOL) };
    assert_eq!(revert_trade_context(&mut ctx, &accounts, 0), Err(FruitBasketError::UnknownBasket));
    assert!(!ctx.reverting);
}

#[test]
fn native_decimals_rescale_orders() {
    let (mut ctx, _) = open(ContextSide::Buy, 1_000_000, 300_000_000).unwrap();
    let o = order(plan_token_for_context(&mut ctx, &on(1), 9, 1_000).unwrap());
    assert_eq!(o.max_coin_qty, 2_000_000);
    assert_eq!(process_token_for_context(&mut ctx, &o, &observed(true, 1_000_000_500, 0)), Ok(()));
    assert_eq!(ctx.token_amounts[0], 999_999);
    assert!(!ctx.tokens_treated[0]);

    let o = order(plan_token_for_context(&mut ctx, &on(2), 3, 7).unwrap());
    assert_eq!(o.max_coin_qty, 142);
    assert_eq!(process_token_for_context(&mut ctx, &o, &observed(true, 994, 0)), Ok(()));
    assert_eq!(ctx.token_amounts[1], 6_000);
    assert!(ctx.tokens_treated[1]);
}

#[test]
fn component_below_one_lot_is_written_off() {
    let (mut ctx, _) = open(ContextSide::Buy, 1_000_000, 300_000_000).unwrap();
    assert_eq!(plan_token_for_context(&mut ctx, &on(2), 6, 3_000_000), Ok(AssetAction::Nothing));
    assert!(ctx.tokens_treated[1]);
    assert_eq!(ctx.token_amounts[1], 1_000_000);
}

#[test]
fn planning_refusals() {
    let (mut ctx, _) = open(ContextSide::Buy, 1_000_000, 300_000_000).unwrap();
    let other = ProcessTokenOnContext { trade_context: key(71), fruitbasket: key(51), token_mint: key(1) };
    assert_eq!(plan_token_for_context(&mut ctx, &other, 6, 1), Err(FruitBasketError::UnknownBasket));
    assert_eq!(plan_token_for_context(&mut ctx, &on(1), 6, 0), Err(FruitBasketError::UnknownMarket));
    assert_eq!(plan_token_for_context(&mut ctx, &on(1), 255, 1), Err(FruitBasketError::ArithmeticOverflow));
    assert_eq!(ctx.tokens_treated[..2], [false, false]);
}

#[test]
fn booking_refusals_leave_context_unchanged() {
    let (mut ctx, _) = open(ContextSide::Buy, 1_000_000, 300_000_000).unwrap();
    let o = order(plan_token_for_context(&mut ctx, &on(1), 6, 1).unwrap());
    let bad_index = OrderRequest { component_index: 5, ..o };
    assert_eq!(process_token_for_context(&mut ctx, &bad_index, &observed(true, 1, 1)), Err(FruitBasketError::TokenNotFound));
    let no_lot = OrderRequest { lot_size: 0, ..o };
    assert_eq!(process_token_for_context(&mut ctx, &no_lot, &observed(true, 1, 1)), Err(FruitBasketError::UnknownMarket));
    assert_eq!(
        process_token_for_context(&mut ctx, &o, &observed(true, 2_000_001, 1)),
        Err(FruitBasketError::ArithmeticOverflow)
    );
    assert_eq!(
        process_token_for_context(&mut ctx, &o, &observed(false, 10, 0)),
        Err(FruitBasketError::ArithmeticOverflow)
    );
    assert_eq!(
        process_token_for_context(&mut ctx, &o, &observed(true, 10, 277_750_001)),
        Err(FruitBasketError::ArithmeticOverflow)
    );
    assert_eq!(ctx.token_amounts[0], 2_000_000);
    assert_eq!(ctx.usdc_amount_left, 277_750_000);
    assert!(!ctx.tokens_treated[0]);
}

#[test]
fn finalize_checks_accounts() {
    let (mut ctx, _) = open(ContextSide::Buy, 1_000_000, 300_000_000).unwrap();
    fill_fully(&mut ctx, 1, 0);
    fill_fully(&mut ctx, 2, 0);
    let wrong_basket = FinalizeContext { fruitbasket: key(51), ..finalize_accounts() };
    assert_eq!(finalize_context(&ctx, &wrong_basket), Err(FruitBasketError::UnknownBasket));
    let wrong_quote = FinalizeContext { quote_token_account: key(62), ..finalize_accounts() };
    assert_eq!(finalize_context(&ctx, &wrong_quote), Err(FruitBasketError::AccountsMismatch));
    let wrong_basket_account = FinalizeContext { basket_token_account: key(62), ..finalize_accounts() };
    assert_eq!(finalize_context(&ctx, &wrong_basket_account), Err(FruitBasketError::AccountsMismatch));
}

#[test]
fn malformed_context_is_detected() {
    let (mut ctx, _) = open(ContextSide::Buy, 1_000_000, 300_000_000).unwrap();
    ctx.token_amounts[0] = 2_000_001;
    assert!(!ctx.is_well_formed());
    let (mut ctx, _) = open(ContextSide::Buy, 1_000_000, 300_000_000).unwrap();
    ctx.tokens_treated[7] = false;
    assert!(!ctx.is_well_formed());
    let (mut ctx, _) = open(ContextSide::Buy, 1_000_000, 300_000_000).unwrap();
    ctx.tokens_treated.pop();
    assert!(!ctx.is_well_formed());
}
