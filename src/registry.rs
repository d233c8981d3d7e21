//! Set-up of the market: the group, its assets and its baskets.
use crate::errors::FruitBasketError;
use crate::instructions::{AddToken, InitializeGroup};
use crate::key::AccountKey;
use crate::states::{
    Basket,
    BasketComponentDescription,
    Cache,
    FruitBasketGroup,
    TokenDescription,
    BASE_MINT_NAME_LEN,
    BASKET_DECIMALS,
    BASKET_DESC_LEN,
    BASKET_DESC_MAGIC,
    BASKET_NAME_LEN,
    MAX_NB_COMPONENTS,
    MAX_NB_TOKENS,
    MIN_NB_COMPONENTS,
    TOKEN_DESC_MAGIC,
    TOKEN_NAME_LEN,
};
use vstd::prelude::*;

verus! {

/// The first `n` bytes of `bytes`, in a vector of their own.
fn copy_prefix(bytes: &[u8], n: usize) -> (r: Vec<u8>)
    requires
        n <= bytes@.len(),
    ensures
        r@ == bytes@.subrange(0, n as int),
{
    let mut r: Vec<u8> = Vec::new();
    let mut i: usize = 0;
    while i < n
        invariant
            i <= n,
            n <= bytes@.len(),
            r@ == bytes@.subrange(0, i as int),
        decreases n - i,
    {
        r.push(bytes[i]);
        i = i + 1;
        assert(r@ =~= bytes@.subrange(0, i as int));
    }
    r
}

/// Sets up the group of `accounts.owner`, whose baskets are paid in the
/// asset `accounts.quote_token_mint` named `base_mint_name` (cut to its
/// first ten bytes).
pub fn initialize_group(accounts: &InitializeGroup, base_mint_name: &[u8]) -> (r: FruitBasketGroup)
    ensures
        r.owner == accounts.owner,
        r.token_count == 0,
        r.base_mint == accounts.quote_token_mint,
        r.base_mint_name@ == base_mint_name@.subrange(
            0,
            if base_mint_name@.len() > BASE_MINT_NAME_LEN {
                BASE_MINT_NAME_LEN as int
            } else {
                base_mint_name@.len() as int
            },
        ),
        r.number_of_baskets == 0,
        r.nb_users == 0,
        r.quote_token_transaction_pool == accounts.quote_token_transaction_pool,
{
    let size: usize = if base_mint_name.len() > BASE_MINT_NAME_LEN {
        BASE_MINT_NAME_LEN
    } else {
        base_mint_name.len()
    };
    FruitBasketGroup {
        owner: accounts.owner,
        token_count: 0,
        base_mint: accounts.quote_token_mint,
        base_mint_name: copy_prefix(base_mint_name, size),
        number_of_baskets: 0,
        nb_users: 0,
        quote_token_transaction_pool: accounts.quote_token_transaction_pool,
    }
}

pub open spec fn add_token_outcome(
    group: FruitBasketGroup,
    accounts: AddToken,
    authority: Seq<u8>,
    name: Seq<u8>,
) -> Result<(), FruitBasketError> {
    if name.len() > TOKEN_NAME_LEN {
        Err(FruitBasketError::NameBufferOverflow)
    } else if group.token_count >= MAX_NB_TOKENS {
        Err(FruitBasketError::TokenCountLimitReached)
    } else if accounts.fruitbasket_authority@ != authority {
        Err(FruitBasketError::UnknownAuthority)
    } else {
        Ok(())
    }
}

/// Registers the asset `accounts.mint`, with `token_decimal` decimals and
/// named `name`, as the next asset of the group. `authority` is the
/// market's own authority, which the caller must have supplied; and
/// `empty_market` the placeholder key of an asset without an order book.
/// Returns the asset's description, with no quote cached yet, and whether
/// an open-orders account must be set up for it on its order book.
pub fn add_token(
    group: &mut FruitBasketGroup,
    accounts: &AddToken,
    authority: &AccountKey,
    empty_market: &AccountKey,
    name: &[u8],
    token_decimal: u8,
) -> (r: Result<(TokenDescription, bool), FruitBasketError>)
    ensures
        r.is_ok() == add_token_outcome(*old(group), *accounts, authority@, name@) is Ok,
        r.is_err() ==> r == Err::<(TokenDescription, bool), FruitBasketError>(
            add_token_outcome(*old(group), *accounts, authority@, name@)->Err_0,
        ) && *final(group) == *old(group),
        r.is_ok() ==> *final(group) == (FruitBasketGroup {
            token_count: (old(group).token_count + 1) as u64,
            ..*old(group)
        }),
        r.is_ok() ==> ({
            let (d, has_market) = r.unwrap();
            &&& d.magic == TOKEN_DESC_MAGIC
            &&& d.id == old(group).token_count
            &&& d.token_mint == accounts.mint
            &&& d.price_oracle == accounts.price_oracle
            &&& d.product_oracle == accounts.product_oracle
            &&& d.token_name@ == name@
            &&& d.token_pool == accounts.token_pool
            &&& d.token_decimal == token_decimal
            &&& has_market == (accounts.market@ != empty_market@)
            &&& has_market ==> d.market == accounts.market && d.token_open_orders
                == accounts.open_orders_account
            &&& !has_market ==> d.market@ == Seq::new(32, |i: int| 0u8) && d.token_open_orders@
                == Seq::new(32, |i: int| 0u8)
            &&& d.cache == Cache { last_price: 0, last_exp: 0, last_confidence: 0 }
        }),
{
    if name.len() > TOKEN_NAME_LEN {
        return Err(FruitBasketError::NameBufferOverflow);
    }
    if group.token_count >= MAX_NB_TOKENS {
        return Err(FruitBasketError::TokenCountLimitReached);
    }
    if !accounts.fruitbasket_authority.same_as(authority) {
        return Err(FruitBasketError::UnknownAuthority);
    }
    let has_market = !accounts.market.same_as(empty_market);
    let (market, open_orders) = if has_market {
        (accounts.market, accounts.open_orders_account)
    } else {
        (AccountKey::zero(), AccountKey::zero())
    };
    let desc = TokenDescription {
        magic: TOKEN_DESC_MAGIC,
        id: group.token_count,
        token_mint: accounts.mint,
        price_oracle: accounts.price_oracle,
        product_oracle: accounts.product_oracle,
        token_name: copy_prefix(name, name.len()),
        token_pool: accounts.token_pool,
        token_decimal,
        token_open_orders: open_orders,
        market,
        cache: Cache { last_price: 0, last_exp: 0, last_confidence: 0 },
    };
    assert(name@.subrange(0, name@.len() as int) =~= name@);
    group.token_count = group.token_count + 1;
    Ok((desc, has_market))
}

pub open spec fn add_basket_outcome(
    group: FruitBasketGroup,
    basket_number: u64,
    basket_name: Seq<u8>,
    basket_desc: Seq<u8>,
    components: Seq<BasketComponentDescription>,
) -> Result<(), FruitBasketError> {
    if components.len() >= MAX_NB_COMPONENTS {
        Err(FruitBasketError::ComponentCountOverflow)
    } else if components.len() < MIN_NB_COMPONENTS {
        Err(FruitBasketError::ComponentCountUnderflow)
    } else if group.number_of_baskets != basket_number {
        Err(FruitBasketError::BasketNbMismatch)
    } else if basket_name.len() > BASKET_NAME_LEN || basket_desc.len() > BASKET_DESC_LEN {
        Err(FruitBasketError::NameBufferOverflow)
    } else if group.number_of_baskets == u64::MAX {
        Err(FruitBasketError::ArithmeticOverflow)
    } else {
        Ok(())
    }
}

/// Creates basket number `basket_number` of the group, with its own mint
/// `basket_mint`; its price is zero until first aggregated.
pub fn add_basket(
    group: &mut FruitBasketGroup,
    basket_number: u64,
    basket_name: &[u8],
    basket_desc: &[u8],
    basket_components: &Vec<BasketComponentDescription>,
    basket_mint: &AccountKey,
) -> (r: Result<Basket, FruitBasketError>)
    ensures
        r.is_ok() == add_basket_outcome(
            *old(group),
            basket_number,
            basket_name@,
            basket_desc@,
            basket_components@,
        ) is Ok,
        r.is_err() ==> r == Err::<Basket, FruitBasketError>(
            add_basket_outcome(
                *old(group),
                basket_number,
                basket_name@,
                basket_desc@,
                basket_components@,
            )->Err_0,
        ) && *final(group) == *old(group),
        r.is_ok() ==> *final(group) == (FruitBasketGroup {
            number_of_baskets: (old(group).number_of_baskets + 1) as u64,
            ..*old(group)
        }),
        r.is_ok() ==> ({
            let b = r.unwrap();
            &&& b.wf()
            &&& b.magic == BASKET_DESC_MAGIC
            &&& b.basket_name@ == basket_name@
            &&& b.desc@ == basket_desc@
            &&& b.components@ == basket_components@
            &&& b.basket_mint == *basket_mint
            &&& b.last_price == 0
            &&& b.confidence == 0
        }),
{
    let n = basket_components.len();
    if n >= MAX_NB_COMPONENTS {
        return Err(FruitBasketError::ComponentCountOverflow);
    }
    if n < MIN_NB_COMPONENTS {
        return Err(FruitBasketError::ComponentCountUnderflow);
    }
    if group.number_of_baskets != basket_number {
        return Err(FruitBasketError::BasketNbMismatch);
    }
    if basket_name.len() > BASKET_NAME_LEN || basket_desc.len() > BASKET_DESC_LEN {
        return Err(FruitBasketError::NameBufferOverflow);
    }
    if group.number_of_baskets == u64::MAX {
        return Err(FruitBasketError::ArithmeticOverflow);
    }
    let mut components: Vec<BasketComponentDescription> = Vec::new();
    let mut i: usize = 0;
    while i < n
        invariant
            i <= n,
            n == basket_components@.len(),
            components@ == basket_components@.subrange(0, i as int),
        decreases n - i,
    {
        components.push(basket_components[i]);
        i = i + 1;
        assert(components@ =~= basket_components@.subrange(0, i as int));
    }
    assert(components@ =~= basket_components@);
    assert(basket_name@.subrange(0, basket_name@.len() as int) =~= basket_name@);
    assert(basket_desc@.subrange(0, basket_desc@.len() as int) =~= basket_desc@);
    let basket = Basket {
        magic: BASKET_DESC_MAGIC,
        basket_name: copy_prefix(basket_name, basket_name.len()),
        desc: copy_prefix(basket_desc, basket_desc.len()),
        number_of_components: n as u8,
        components,
        basket_mint: *basket_mint,
        last_price: 0,
        confidence: 0,
        decimal: BASKET_DECIMALS,
    };
    group.number_of_baskets = group.number_of_baskets + 1;
    Ok(basket)
}

} // verus!
