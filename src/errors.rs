use vstd::prelude::*;

verus! {

/// Why an operation was refused. A refused operation changes nothing.
#[derive(Clone, Copy, Debug, PartialEq, Eq, Structural)]
pub enum FruitBasketError {
    NameBufferOverflow,
    TokenCountLimitReached,
    UnknownAuthority,
    ComponentCountOverflow,
    ComponentCountUnderflow,
    BasketNbMismatch,
    TokenNotFound,
    PriceEqualOrLessThanZero,
    LowConfidenceInOracle,
    TooLowMaximumBuyPrice,
    AccountsMismatch,
    TooHighMinimumSellPrice,
    UnknownBasket,
    NotAllTokensTreatedBeforeFinalize,
    ErrorDeserializeTokeDesc,
    UnknownMarket,
    UnknownOpenOrders,
    /// A checked computation left the range of its integer type.
    ArithmeticOverflow,
}

} // verus!
