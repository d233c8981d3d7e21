use fruitbasket::errors::FruitBasketError;
use fruitbasket::instructions::UpdatePrice;
use fruitbasket::key::AccountKey;
use fruitbasket::oracle::update_price;
use fruitbasket::price::{update_basket_price, weighted_value_checked};
use fruitbasket::states::{Basket, BasketComponentDescription, Cache, TokenDescription};

fn key(b: u8) -> AccountKey {
    AccountKey::new([b; 32])
}

fn token(mint: u8, oracle: u8, price: u64, conf: u64, expo: i32) -> TokenDescription {
    TokenDescription {
        magic: 0,
        id: mint as u64,
        token_mint: key(mint),
        price_oracle: key(oracle),
        product_oracle: key(0),
        token_name: vec![],
        token_pool: key(0),
        token_decimal: 6,
        token_open_orders: key(0),
        market: key(0),
        cache: Cache { last_price: price, last_exp: expo, last_confidence: conf },
    }
}

fn basket(components: Vec<BasketComponentDescription>) -> Basket {
    Basket {
        magic: 0,
        basket_name: vec![],
        desc: vec![],
        number_of_components: components.len() as u8,
        components,
        basket_mint: key(99),
        last_price: 7,
        confidence: 3,
        decimal: 6,
    }
}

fn component(mint: u8, amount: u64, decimal: u8) -> BasketComponentDescription {
    BasketComponentDescription { token_mint: key(mint), amount, decimal }
}

#[test]
fn two_component_basket_price() {
    let mut b = basket(vec![component(1, 2_000_000, 6), component(2, 1_000_000, 6)]);
    let tokens = vec![token(1, 11, 10_000, 100, -2), token(2, 12, 5_000, 50, -2)];
    assert_eq!(update_basket_price(&mut b, &tokens), Ok(()));
    assert_eq!(b.last_price, 250_000_000);
    assert_eq!(b.confidence, 2_500_000);
}

#[test]
fn basket_price_is_weighted_sum_for_equal_exponents() {
    let mut b = basket(vec![component(1, 1_500_000, 6), component(2, 250, 3), component(3, 7, 0)]);
    let tokens = vec![token(3, 13, 3, 0, -4), token(1, 11, 40_000, 10, -4), token(2, 12, 123, 1, -4)];
    assert_eq!(update_basket_price(&mut b, &tokens), Ok(()));
    let raw = 40_000u64 * 1_500_000 / 1_000_000 + 123 * 250 / 1_000 + 3 * 7;
    assert_eq!(b.last_price, raw * 100);
    assert_eq!(b.confidence, (15 + 0) * 100);
}

#[test]
fn basket_price_with_fine_oracle_exponent_divides() {
    let mut b = basket(vec![component(1, 1_000_000, 6), component(2, 2_000_000, 6)]);
    let tokens = vec![token(1, 11, 123_456_789, 1_000, -8), token(2, 12, 5, 0, 0)];
    assert_eq!(update_basket_price(&mut b, &tokens), Ok(()));
    assert_eq!(b.last_price, 1_234_567 + 10_000_000);
    assert_eq!(b.confidence, 10);
}

#[test]
fn basket_price_missing_token() {
    let mut b = basket(vec![component(1, 1_000_000, 6), component(2, 1_000_000, 6)]);
    let tokens = vec![token(1, 11, 100, 1, -2)];
    assert_eq!(update_basket_price(&mut b, &tokens), Err(FruitBasketError::TokenNotFound));
    assert_eq!(b.last_price, 7);
    assert_eq!(b.confidence, 3);
}

#[test]
fn basket_price_zero_is_refused() {
    let mut b = basket(vec![component(1, 1_000_000, 6), component(2, 1_000_000, 6)]);
    let tokens = vec![token(1, 11, 0, 0, -2), token(2, 12, 0, 0, -2)];
    assert_eq!(update_basket_price(&mut b, &tokens), Err(FruitBasketError::PriceEqualOrLessThanZero));
    assert_eq!(b.last_price, 7);
}

#[test]
fn basket_price_overflow_is_refused() {
    let mut b = basket(vec![component(1, u64::MAX, 0), component(2, 1_000_000, 6)]);
    let tokens = vec![token(1, 11, u64::MAX, 0, 0), token(2, 12, 1, 0, 0)];
    assert_eq!(update_basket_price(&mut b, &tokens), Err(FruitBasketError::ArithmeticOverflow));
    assert_eq!(b.last_price, 7);
}

#[test]
fn weighted_value_scales() {
    assert_eq!(weighted_value_checked(10_000, 2_000_000, 6, -2), Some(200_000_000));
    assert_eq!(weighted_value_checked(10_000, 2_000_000, 6, -10), Some(2));
    assert_eq!(weighted_value_checked(1, 1, 0, 13), Some(10_000_000_000_000_000_000));
    assert_eq!(weighted_value_checked(2, 1, 0, 13), None);
    assert_eq!(weighted_value_checked(5, 1, 200, 0), Some(0));
    assert_eq!(weighted_value_checked(u64::MAX, u64::MAX, 255, i32::MAX), Some(0));
}

#[test]
fn oracle_quote_is_cached() {
    let mut t = token(1, 11, 0, 0, 0);
    let accounts = UpdatePrice { token_desc: key(1), oracle_ai: key(11) };
    assert_eq!(update_price(&mut t, &accounts, 10_000, 1_000, -2), Ok(()));
    assert_eq!(t.cache, Cache { last_price: 10_000, last_exp: -2, last_confidence: 1_000 });
    assert_eq!(update_price(&mut t, &accounts, 20_000, 5, -3), Ok(()));
    assert_eq!(t.cache, Cache { last_price: 20_000, last_exp: -3, last_confidence: 5 });
}

#[test]
fn oracle_quote_refusals() {
    let mut t = token(1, 11, 42, 1, -1);
    let good = UpdatePrice { token_desc: key(1), oracle_ai: key(11) };
    let other = UpdatePrice { token_desc: key(1), oracle_ai: key(12) };
    let before = t.cache;
    assert_eq!(update_price(&mut t, &other, 100, 1, -2), Err(FruitBasketError::UnknownAuthority));
    assert_eq!(update_price(&mut t, &good, 0, 0, -2), Err(FruitBasketError::PriceEqualOrLessThanZero));
    assert_eq!(update_price(&mut t, &good, -5, 0, -2), Err(FruitBasketError::PriceEqualOrLessThanZero));
    assert_eq!(update_price(&mut t, &good, 100, 11, -2), Err(FruitBasketError::LowConfidenceInOracle));
    assert_eq!(t.cache, before);
}

#[test]
fn oracle_confidence_of_exactly_a_tenth_is_accepted() {
    let mut t = token(1, 11, 0, 0, 0);
    let good = UpdatePrice { token_desc: key(1), oracle_ai: key(11) };
    assert_eq!(update_price(&mut t, &good, 100, 10, -2), Ok(()));
    assert_eq!(t.cache.last_confidence, 10);
}
