//! The records of the basket market: the group, the basket definitions, the
//! registered assets with their cached quotes, and the trade contexts.
use crate::key::AccountKey;
use vstd::prelude::*;

verus! {

/// Number of assets the group can register.
pub const MAX_NB_TOKENS: u64 = 20;

/// Number of component slots in a trade context; a basket uses at most one
/// less.
pub const MAX_NB_COMPONENTS: usize = 10;

/// Fewest components a basket may have.
pub const MIN_NB_COMPONENTS: usize = 2;

/// Decimal places of basket prices and basket-scale amounts.
pub const BASKET_DECIMALS: u8 = 6;

pub const BASE_MINT_NAME_LEN: usize = 10;

pub const TOKEN_NAME_LEN: usize = 10;

pub const BASKET_NAME_LEN: usize = 128;

pub const BASKET_DESC_LEN: usize = 256;

pub const BASKET_TRADE_CONTEXT_MAGIC: u32 = 0xba873cfd;

pub const BASKET_DESC_MAGIC: u32 = 0xa435efbb;

pub const TOKEN_DESC_MAGIC: u32 = 0xcde78987;

/// Data common to the whole market, set up once by its owner.
#[derive(Clone, Debug)]
pub struct FruitBasketGroup {
    pub owner: AccountKey,
    /// Number of assets registered so far.
    pub token_count: u64,
    /// Mint of the quote asset (the asset a basket is paid in).
    pub base_mint: AccountKey,
    /// Name of the quote asset, at most ten bytes.
    pub base_mint_name: Vec<u8>,
    pub number_of_baskets: u64,
    pub nb_users: u8,
    /// Pool that holds the quote asset of all trades in flight.
    pub quote_token_transaction_pool: AccountKey,
}

/// Last accepted oracle quote of one asset: the price is
/// `last_price * 10^last_exp`, give or take `last_confidence * 10^last_exp`.
#[derive(Clone, Copy, Debug, PartialEq, Eq, Structural)]
pub struct Cache {
    pub last_price: u64,
    pub last_exp: i32,
    pub last_confidence: u64,
}

/// One component of a basket: one basket unit holds
/// `amount / 10^decimal` units of the asset with mint `token_mint`.
#[derive(Clone, Copy, Debug)]
pub struct BasketComponentDescription {
    pub token_mint: AccountKey,
    pub amount: u64,
    pub decimal: u8,
}

#[derive(Clone, Copy, Debug, PartialEq, Eq, Structural)]
pub enum ContextSide {
    Buy,
    Sell,
}

/// A basket definition with its last aggregated price.
#[derive(Clone, Debug)]
pub struct Basket {
    pub magic: u32,
    pub basket_name: Vec<u8>,
    pub desc: Vec<u8>,
    pub number_of_components: u8,
    pub components: Vec<BasketComponentDescription>,
    pub basket_mint: AccountKey,
    /// Price of one basket unit in quote units, with `decimal` decimals.
    pub last_price: u64,
    /// Confidence of `last_price`, on the same scale.
    pub confidence: u64,
    /// Always six.
    pub decimal: u8,
}

impl Basket {
    pub open spec fn wf(&self) -> bool {
        &&& self.components@.len() == self.number_of_components as nat
        &&& MIN_NB_COMPONENTS <= self.components@.len() < MAX_NB_COMPONENTS
        &&& self.basket_name@.len() <= BASKET_NAME_LEN
        &&& self.desc@.len() <= BASKET_DESC_LEN
        &&& self.decimal == BASKET_DECIMALS
    }

    /// Whether the basket is well formed, as a stored basket read back must
    /// be before a trade is opened on it.
    pub fn is_well_formed(&self) -> (r: bool)
        ensures
            r == self.wf(),
    {
        self.components.len() == self.number_of_components as usize && MIN_NB_COMPONENTS
            <= self.components.len() && self.components.len() < MAX_NB_COMPONENTS
            && self.basket_name.len() <= BASKET_NAME_LEN && self.desc.len() <= BASKET_DESC_LEN
            && self.decimal == BASKET_DECIMALS
    }
}

/// A registered asset: where it is priced, pooled and traded, and its last
/// accepted quote.
#[derive(Clone, Debug)]
pub struct TokenDescription {
    pub magic: u32,
    pub id: u64,
    pub token_mint: AccountKey,
    pub price_oracle: AccountKey,
    pub product_oracle: AccountKey,
    pub token_name: Vec<u8>,
    pub token_pool: AccountKey,
    /// Decimal places of the asset's native unit.
    pub token_decimal: u8,
    pub token_open_orders: AccountKey,
    pub market: AccountKey,
    pub cache: Cache,
}

/// The state of one basket trade in flight.
///
/// The per-component vectors have `MAX_NB_COMPONENTS` slots; slot `i` below
/// `number_of_components` stands for component `i` of the basket, the others
/// are marked treated and never used. Amounts are on the basket scale (six
/// decimals).
#[derive(Clone, Debug)]
pub struct BasketTradeContext {
    pub magic: u32,
    pub side: ContextSide,
    pub basket: AccountKey,
    pub reverting: bool,
    /// Basket units bought or sold.
    pub amount: u64,
    /// Quote units held for this trade and not yet spent.
    pub usdc_amount_left: u64,
    pub quote_token_account: AccountKey,
    pub basket_token_account: AccountKey,
    /// Quote units escrowed when the trade was opened.
    pub initial_usdc_transfer_amount: u64,
    pub created_on: u64,
    pub number_of_components: u8,
    pub token_mints: Vec<AccountKey>,
    /// Amount of each component still to be traded.
    pub token_amounts: Vec<u64>,
    /// Amount of each component to trade, as computed when opened.
    pub initial_token_amounts: Vec<u64>,
    pub tokens_treated: Vec<bool>,
}

/// The mathematical state of a trade context.
#[verifier::ext_equal]
pub struct TradeContextModel {
    pub side: ContextSide,
    pub reverting: bool,
    pub basket: Seq<u8>,
    pub amount: u64,
    pub usdc_amount_left: u64,
    pub quote_token_account: Seq<u8>,
    pub basket_token_account: Seq<u8>,
    pub initial_usdc_transfer_amount: u64,
    pub created_on: u64,
    pub number_of_components: nat,
    pub token_mints: Seq<Seq<u8>>,
    pub token_amounts: Seq<u64>,
    pub initial_token_amounts: Seq<u64>,
    pub tokens_treated: Seq<bool>,
}

impl View for BasketTradeContext {
    type V = TradeContextModel;

    open spec fn view(&self) -> TradeContextModel {
        TradeContextModel {
            side: self.side,
            reverting: self.reverting,
            basket: self.basket@,
            amount: self.amount,
            usdc_amount_left: self.usdc_amount_left,
            quote_token_account: self.quote_token_account@,
            basket_token_account: self.basket_token_account@,
            initial_usdc_transfer_amount: self.initial_usdc_transfer_amount,
            created_on: self.created_on,
            number_of_components: self.number_of_components as nat,
            token_mints: self.token_mints@.map_values(|k: AccountKey| k@),
            token_amounts: self.token_amounts@,
            initial_token_amounts: self.initial_token_amounts@,
            tokens_treated: self.tokens_treated@,
        }
    }
}

impl TradeContextModel {
    /// Every slot exists, the unused ones are marked treated, and no
    /// component has more left to trade than it started with.
    pub open spec fn wf(&self) -> bool {
        &&& self.token_mints.len() == MAX_NB_COMPONENTS
        &&& self.token_amounts.len() == MAX_NB_COMPONENTS
        &&& self.initial_token_amounts.len() == MAX_NB_COMPONENTS
        &&& self.tokens_treated.len() == MAX_NB_COMPONENTS
        &&& MIN_NB_COMPONENTS <= self.number_of_components < MAX_NB_COMPONENTS
        &&& forall|i: int|
            self.number_of_components <= i < MAX_NB_COMPONENTS ==> #[trigger] self.tokens_treated[i]
        &&& forall|i: int|
            0 <= i < MAX_NB_COMPONENTS ==> #[trigger] self.token_amounts[i]
                <= self.initial_token_amounts[i]
    }

    /// Every component is treated: the trade can be finalized.
    pub open spec fn all_treated(&self) -> bool {
        forall|i: int| 0 <= i < self.number_of_components ==> #[trigger] self.tokens_treated[i]
    }

    /// The direction traded on the order book: the trade's own side, or the
    /// opposite one while reverting.
    pub open spec fn trades_buy(&self) -> bool {
        (self.side == ContextSide::Buy) != self.reverting
    }
}

impl BasketTradeContext {
    /// Whether the context is well formed, as a stored context read back
    /// must be before it is operated on.
    pub fn is_well_formed(&self) -> (r: bool)
        ensures
            r == self@.wf(),
    {
        if self.token_mints.len() != MAX_NB_COMPONENTS || self.token_amounts.len() != MAX_NB_COMPONENTS
            || self.initial_token_amounts.len() != MAX_NB_COMPONENTS || self.tokens_treated.len()
            != MAX_NB_COMPONENTS {
            return false;
        }
        let n = self.number_of_components as usize;
        if n < MIN_NB_COMPONENTS || n >= MAX_NB_COMPONENTS {
            return false;
        }
        let mut i: usize = 0;
        while i < MAX_NB_COMPONENTS
            invariant
                i <= MAX_NB_COMPONENTS,
                n == self@.number_of_components,
                self@.token_amounts.len() == MAX_NB_COMPONENTS,
                self@.initial_token_amounts.len() == MAX_NB_COMPONENTS,
                self@.tokens_treated.len() == MAX_NB_COMPONENTS,
                forall|j: int| n <= j < i ==> #[trigger] self@.tokens_treated[j],
                forall|j: int| 0 <= j < i ==> #[trigger] self@.token_amounts[j] <= self@.initial_token_amounts[j],
            decreases MAX_NB_COMPONENTS - i,
        {
            if i >= n && !self.tokens_treated[i] {
                return false;
            }
            if self.token_amounts[i] > self.initial_token_amounts[i] {
                return false;
            }
            i = i + 1;
        }
        true
    }

    pub fn trades_buy(&self) -> (r: bool)
        ensures
            r == self@.trades_buy(),
    {
        match self.side {
            ContextSide::Buy => !self.reverting,
            ContextSide::Sell => self.reverting,
        }
    }
}

/// Position of the first of the keys `keys[from..n]` equal to `key`, or -1.
pub open spec fn index_of(keys: Seq<Seq<u8>>, key: Seq<u8>, from: int, n: int) -> int
    decreases n - from,
{
    if from >= n {
        -1
    } else if keys[from] == key {
        from
    } else {
        index_of(keys, key, from + 1, n)
    }
}

pub proof fn lemma_index_of_range(keys: Seq<Seq<u8>>, key: Seq<u8>, from: int, n: int)
    ensures
        index_of(keys, key, from, n) == -1 || (from <= index_of(keys, key, from, n) < n
            && keys[index_of(keys, key, from, n)] == key),
    decreases n - from,
{
    if from < n && keys[from] != key {
        lemma_index_of_range(keys, key, from + 1, n);
    }
}

/// Position of the first key of `keys[0..n]` equal to `key`, as
/// `index_of` gives it.
pub fn find_key(keys: &Vec<AccountKey>, key: &AccountKey, n: usize) -> (r: Option<usize>)
    requires
        n <= keys@.len(),
    ensures
        r.is_none() ==> index_of(keys@.map_values(|k: AccountKey| k@), key@, 0, n as int) == -1,
        r.is_some() ==> r.unwrap() as int == index_of(
            keys@.map_values(|k: AccountKey| k@),
            key@,
            0,
            n as int,
        ),
{
    let ghost views = keys@.map_values(|k: AccountKey| k@);
    let mut i: usize = 0;
    while i < n
        invariant
            i <= n,
            n <= keys@.len(),
            views == keys@.map_values(|k: AccountKey| k@),
            index_of(views, key@, 0, n as int) == index_of(views, key@, i as int, n as int),
        decreases n - i,
    {
        assert(views[i as int] == keys@[i as int]@);
        if keys[i].same_as(key) {
            return Some(i);
        }
        i = i + 1;
    }
    None
}

} // verus!
