//! Validation of oracle quotes before they are cached on an asset.
use crate::errors::FruitBasketError;
use crate::instructions::UpdatePrice;
use crate::states::{Cache, TokenDescription};
use vstd::prelude::*;

verus! {

/// What `update_price` answers for a quote from `oracle` of `price`, give
/// or take `conf`, on an asset whose registered price oracle is `registered`.
/// A quote is refused when its confidence exceeds a tenth of its price.
pub open spec fn quote_outcome(registered: Seq<u8>, oracle: Seq<u8>, price: int, conf: int) -> Result<
    (),
    FruitBasketError,
> {
    if registered != oracle {
        Err(FruitBasketError::UnknownAuthority)
    } else if price <= 0 {
        Err(FruitBasketError::PriceEqualOrLessThanZero)
    } else if 10 * conf > price {
        Err(FruitBasketError::LowConfidenceInOracle)
    } else {
        Ok(())
    }
}

/// Caches the quote `price * 10^expo`, give or take `conf * 10^expo`, read
/// from the oracle `accounts.oracle_ai`, on the asset `token_desc`. The previous quote
/// is overwritten; nothing changes when the quote is refused.
pub fn update_price(
    token_desc: &mut TokenDescription,
    accounts: &UpdatePrice,
    price: i64,
    conf: u64,
    expo: i32,
) -> (r: Result<(), FruitBasketError>)
    ensures
        r == quote_outcome(old(token_desc).price_oracle@, accounts.oracle_ai@, price as int, conf as int),
        r.is_ok() ==> *final(token_desc) == (TokenDescription {
            cache: Cache { last_price: price as u64, last_exp: expo, last_confidence: conf },
            ..*old(token_desc)
        }),
        r.is_err() ==> *final(token_desc) == *old(token_desc),
{
    if !token_desc.price_oracle.same_as(&accounts.oracle_ai) {
        return Err(FruitBasketError::UnknownAuthority);
    }
    if price <= 0 {
        return Err(FruitBasketError::PriceEqualOrLessThanZero);
    }
    if 10 * (conf as u128) > price as u128 {
        return Err(FruitBasketError::LowConfidenceInOracle);
    }
    token_desc.cache = Cache { last_price: price as u64, last_exp: expo, last_confidence: conf };
    Ok(())
}

} // verus!
