//! The accounts each operation is handed, by key.
use crate::key::AccountKey;
use vstd::prelude::*;

verus! {

/// Accounts of the group's set-up.
#[derive(Clone, Copy, Debug)]
pub struct InitializeGroup {
    pub owner: AccountKey,
    pub quote_token_mint: AccountKey,
    pub quote_token_transaction_pool: AccountKey,
}

/// Accounts of an asset's registration.
#[derive(Clone, Copy, Debug)]
pub struct AddToken {
    pub owner: AccountKey,
    pub mint: AccountKey,
    pub price_oracle: AccountKey,
    pub product_oracle: AccountKey,
    pub token_pool: AccountKey,
    /// Order book of the asset; the market's placeholder key where it has none.
    pub market: AccountKey,
    pub open_orders_account: AccountKey,
    /// Authority account supplied by the caller.
    pub fruitbasket_authority: AccountKey,
}

/// Accounts of an oracle quote update.
#[derive(Clone, Copy, Debug)]
pub struct UpdatePrice {
    pub token_desc: AccountKey,
    pub oracle_ai: AccountKey,
}

/// Accounts of the opening of a trade.
#[derive(Clone, Copy, Debug)]
pub struct InitTradeContext {
    pub user: AccountKey,
    pub basket: AccountKey,
    pub quote_token_account: AccountKey,
    pub basket_token_account: AccountKey,
    pub trade_context: AccountKey,
    /// Pool supplied by the caller to receive an escrow.
    pub quote_token_transaction_pool: AccountKey,
}

/// Accounts of one component's fill.
#[derive(Clone, Copy, Debug)]
pub struct ProcessTokenOnContext {
    pub trade_context: AccountKey,
    pub fruitbasket: AccountKey,
    pub token_mint: AccountKey,
}

/// Accounts of a trade's settlement.
#[derive(Clone, Copy, Debug)]
pub struct FinalizeContext {
    pub trade_context: AccountKey,
    pub fruitbasket: AccountKey,
    pub quote_token_account: AccountKey,
    pub basket_token_account: AccountKey,
}

/// Accounts of a trade's revert.
#[derive(Clone, Copy, Debug)]
pub struct RevertTradeContext {
    pub trade_context: AccountKey,
    pub fruitbasket: AccountKey,
    pub quote_token_transaction_pool: AccountKey,
}

} // verus!
