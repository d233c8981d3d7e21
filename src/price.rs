//! Aggregation of the cached asset quotes into one basket price.
use crate::arith::{div_pow10, mul_pow10, pow10};
use crate::errors::FruitBasketError;
use crate::key::AccountKey;
use crate::states::{index_of, Basket, BasketComponentDescription, Cache, TokenDescription};
use vstd::prelude::*;

verus! {

/// A value read at `10^expo` per unit, brought to the basket scale of six
/// decimals (rounded down where that drops digits).
pub open spec fn scale_to_basket(v: nat, expo: int) -> nat {
    if expo < -6 {
        v / pow10((-6 - expo) as nat)
    } else {
        v * pow10((expo + 6) as nat)
    }
}

/// `quoted` (a price or a confidence at the oracle's exponent) weighted by
/// the component's amount per basket unit, on the basket scale.
pub open spec fn weighted_value(quoted: nat, amount: nat, decimal: nat, expo: int) -> nat {
    scale_to_basket(per_unit(quoted, amount, decimal), expo)
}

/// `quoted` times `amount / 10^decimal`, rounded down.
pub open spec fn per_unit(quoted: nat, amount: nat, decimal: nat) -> nat {
    quoted * amount / pow10(decimal)
}

pub open spec fn token_mint_keys(tokens: Seq<TokenDescription>) -> Seq<Seq<u8>> {
    tokens.map_values(|t: TokenDescription| t.token_mint@)
}

/// Position in `tokens` of the first asset with mint `mint`, or -1.
pub open spec fn token_index(tokens: Seq<TokenDescription>, mint: Seq<u8>) -> int {
    index_of(token_mint_keys(tokens), mint, 0, tokens.len() as int)
}

pub open spec fn quote_of(tokens: Seq<TokenDescription>, mint: Seq<u8>) -> Cache {
    tokens[token_index(tokens, mint)].cache
}

pub open spec fn all_components_listed(
    comps: Seq<BasketComponentDescription>,
    tokens: Seq<TokenDescription>,
) -> bool {
    forall|i: int| 0 <= i < comps.len() ==> token_index(tokens, #[trigger] comps[i].token_mint@) >= 0
}

pub open spec fn component_price(c: BasketComponentDescription, tokens: Seq<TokenDescription>) -> nat {
    let q = quote_of(tokens, c.token_mint@);
    weighted_value(q.last_price as nat, c.amount as nat, c.decimal as nat, q.last_exp as int)
}

pub open spec fn component_confidence(
    c: BasketComponentDescription,
    tokens: Seq<TokenDescription>,
) -> nat {
    let q = quote_of(tokens, c.token_mint@);
    weighted_value(q.last_confidence as nat, c.amount as nat, c.decimal as nat, q.last_exp as int)
}

/// Sum of the weighted prices of the first `n` components.
pub open spec fn price_sum(
    comps: Seq<BasketComponentDescription>,
    tokens: Seq<TokenDescription>,
    n: nat,
) -> nat
    decreases n,
{
    if n == 0 {
        0
    } else {
        price_sum(comps, tokens, (n - 1) as nat) + component_price(comps[n - 1], tokens)
    }
}

/// Sum of the weighted confidences of the first `n` components: a worst-case
/// bound, not a statistical combination.
pub open spec fn confidence_sum(
    comps: Seq<BasketComponentDescription>,
    tokens: Seq<TokenDescription>,
    n: nat,
) -> nat
    decreases n,
{
    if n == 0 {
        0
    } else {
        confidence_sum(comps, tokens, (n - 1) as nat) + component_confidence(comps[n - 1], tokens)
    }
}

/// The basket price and confidence that the components and the cached
/// quotes give, or why there is none.
pub open spec fn basket_price_outcome(
    comps: Seq<BasketComponentDescription>,
    tokens: Seq<TokenDescription>,
) -> Result<(u64, u64), FruitBasketError> {
    let p = price_sum(comps, tokens, comps.len());
    let c = confidence_sum(comps, tokens, comps.len());
    if !all_components_listed(comps, tokens) {
        Err(FruitBasketError::TokenNotFound)
    } else if p > u64::MAX || c > u64::MAX {
        Err(FruitBasketError::ArithmeticOverflow)
    } else if p == 0 {
        Err(FruitBasketError::PriceEqualOrLessThanZero)
    } else {
        Ok((p as u64, c as u64))
    }
}

/// Sum over the first `n` components of quoted price times amount per
/// basket unit, at the oracles' own exponent.
pub open spec fn raw_weighted_sum(
    comps: Seq<BasketComponentDescription>,
    tokens: Seq<TokenDescription>,
    n: nat,
) -> nat
    decreases n,
{
    if n == 0 {
        0
    } else {
        let c = comps[n - 1];
        raw_weighted_sum(comps, tokens, (n - 1) as nat) + per_unit(
            quote_of(tokens, c.token_mint@).last_price as nat,
            c.amount as nat,
            c.decimal as nat,
        )
    }
}

/// An accepted basket price is never zero; and where every component's quote
/// has the same exponent, at most six decimals, the basket price is the sum
/// of quoted price times component amount, brought to six decimals.
pub proof fn lemma_basket_price_is_weighted_sum(
    comps: Seq<BasketComponentDescription>,
    tokens: Seq<TokenDescription>,
    expo: int,
)
    ensures
        basket_price_outcome(comps, tokens) is Ok ==> basket_price_outcome(comps, tokens)->Ok_0.0
            > 0,
        (expo >= -6 && forall|i: int|
            0 <= i < comps.len() ==> quote_of(tokens, #[trigger] comps[i].token_mint@).last_exp
                == expo) ==> price_sum(comps, tokens, comps.len()) == raw_weighted_sum(
            comps,
            tokens,
            comps.len(),
        ) * pow10((expo + 6) as nat),
{
    if expo >= -6 && forall|i: int|
        0 <= i < comps.len() ==> quote_of(tokens, #[trigger] comps[i].token_mint@).last_exp == expo {
        lemma_weighted_sum_prefix(comps, tokens, expo, comps.len());
    }
}

proof fn lemma_weighted_sum_prefix(
    comps: Seq<BasketComponentDescription>,
    tokens: Seq<TokenDescription>,
    expo: int,
    n: nat,
)
    requires
        expo >= -6,
        n <= comps.len(),
        forall|i: int|
            0 <= i < comps.len() ==> quote_of(tokens, #[trigger] comps[i].token_mint@).last_exp
                == expo,
    ensures
        price_sum(comps, tokens, n) == raw_weighted_sum(comps, tokens, n) * pow10(
            (expo + 6) as nat,
        ),
    decreases n,
{
    if n > 0 {
        lemma_weighted_sum_prefix(comps, tokens, expo, (n - 1) as nat);
        let c = comps[n - 1];
        let a = raw_weighted_sum(comps, tokens, (n - 1) as nat);
        let b = per_unit(
            quote_of(tokens, c.token_mint@).last_price as nat,
            c.amount as nat,
            c.decimal as nat,
        );
        let k = pow10((expo + 6) as nat);
        assert(quote_of(tokens, c.token_mint@).last_exp == expo);
        assert(component_price(c, tokens) == b * k);
        assert((a + b) * k == a * k + b * k) by (nonlinear_arith);
    } else {
        assert(0 * pow10((expo + 6) as nat) == 0);
    }
}

/// `weighted_value(quoted, amount, decimal, expo)`, or `None` where it
/// exceeds `u64::MAX`.
pub fn weighted_value_checked(quoted: u64, amount: u64, decimal: u8, expo: i32) -> (r: Option<u64>)
    ensures
        r.is_some() <==> weighted_value(quoted as nat, amount as nat, decimal as nat, expo as int)
            <= u64::MAX,
        r.is_some() ==> r.unwrap() == weighted_value(
            quoted as nat,
            amount as nat,
            decimal as nat,
            expo as int,
        ),
{
    proof {
        assert(quoted * amount <= u64::MAX * u64::MAX) by (nonlinear_arith)
            requires
                quoted <= u64::MAX,
                amount <= u64::MAX,
        ;
    }
    let product: u128 = quoted as u128 * amount as u128;
    let per_unit: u128 = div_pow10(product, decimal as u32);
    let scaled: u128 = if expo < -6 {
        let k: u32 = (-6i64 - expo as i64) as u32;
        div_pow10(per_unit, k)
    } else {
        let k: u32 = (expo as i64 + 6) as u32;
        match mul_pow10(per_unit, k) {
            Some(v) => v,
            None => {
                return None;
            },
        }
    };
    if scaled > u64::MAX as u128 {
        None
    } else {
        Some(scaled as u64)
    }
}

/// Position of the first asset in `tokens` whose mint is `mint`.
pub fn find_token(tokens: &Vec<TokenDescription>, mint: &AccountKey) -> (r: Option<usize>)
    ensures
        r.is_none() ==> token_index(tokens@, mint@) == -1,
        r.is_some() ==> r.unwrap() as int == token_index(tokens@, mint@),
{
    let ghost keys = token_mint_keys(tokens@);
    let mut i: usize = 0;
    while i < tokens.len()
        invariant
            i <= tokens@.len(),
            keys == token_mint_keys(tokens@),
            token_index(tokens@, mint@) == index_of(keys, mint@, i as int, tokens@.len() as int),
        decreases tokens@.len() - i,
    {
        assert(keys[i as int] == tokens@[i as int].token_mint@);
        if tokens[i].token_mint.same_as(mint) {
            return Some(i);
        }
        i = i + 1;
    }
    None
}

/// Recomputes the basket's price and confidence from the quotes cached on
/// `tokens`. The result is stored on the basket when it is positive and fits;
/// otherwise the basket is left as it was.
pub fn update_basket_price(basket: &mut Basket, tokens: &Vec<TokenDescription>) -> (r: Result<
    (),
    FruitBasketError,
>)
    ensures
        match basket_price_outcome(old(basket).components@, tokens@) {
            Ok((p, c)) => r.is_ok() && *final(basket) == (Basket {
                last_price: p,
                confidence: c,
                ..*old(basket)
            }),
            Err(e) => r == Err::<(), FruitBasketError>(e) && *final(basket) == *old(basket),
        },
{
    let ghost comps = basket.components@;
    let n = basket.components.len();
    let mut total_price: u128 = 0;
    let mut total_confidence: u128 = 0;
    let mut overflow: bool = false;
    let mut i: usize = 0;
    while i < n
        invariant
            i <= n,
            n == comps.len(),
            comps == basket.components@,
            forall|j: int| 0 <= j < i ==> token_index(tokens@, #[trigger] comps[j].token_mint@) >= 0,
            !overflow ==> total_price == price_sum(comps, tokens@, i as nat),
            !overflow ==> total_confidence == confidence_sum(comps, tokens@, i as nat),
            !overflow ==> total_price <= i * (u64::MAX as int),
            !overflow ==> total_confidence <= i * (u64::MAX as int),
            overflow ==> price_sum(comps, tokens@, i as nat) > u64::MAX || confidence_sum(
                comps,
                tokens@,
                i as nat,
            ) > u64::MAX,
        decreases n - i,
    {
        let c = basket.components[i];
        let found = find_token(tokens, &c.token_mint);
        match found {
            None => {
                proof {
                    assert(!all_components_listed(comps, tokens@)) by {
                        assert(token_index(tokens@, comps[i as int].token_mint@) < 0);
                    }
                }
                return Err(FruitBasketError::TokenNotFound);
            },
            Some(t) => {
                proof {
                    crate::states::lemma_index_of_range(
                        token_mint_keys(tokens@),
                        c.token_mint@,
                        0,
                        tokens@.len() as int,
                    );
                }
                let q = tokens[t].cache;
                let pv = weighted_value_checked(q.last_price, c.amount, c.decimal, q.last_exp);
                let cv = weighted_value_checked(q.last_confidence, c.amount, c.decimal, q.last_exp);
                match (pv, cv) {
                    (Some(p), Some(cf)) => {
                        if !overflow {
                            assert((i + 1) * (u64::MAX as int) == i * (u64::MAX as int) + u64::MAX)
                                by (nonlinear_arith);
                            total_price = total_price + p as u128;
                            total_confidence = total_confidence + cf as u128;
                        }
                    },
                    _ => {
                        overflow = true;
                    },
                }
            },
        }
        i = i + 1;
    }
    proof {
        assert(all_components_listed(comps, tokens@));
    }
    if overflow || total_price > u64::MAX as u128 || total_confidence > u64::MAX as u128 {
        return Err(FruitBasketError::ArithmeticOverflow);
    }
    if total_price == 0 {
        return Err(FruitBasketError::PriceEqualOrLessThanZero);
    }
    basket.last_price = total_price as u64;
    basket.confidence = total_confidence as u64;
    Ok(())
}

} // verus!
