use vstd::prelude::*;

verus! {

/// Every way in which an operation of the engine can fail.
#[derive(Clone, Copy, Debug, PartialEq, Eq, Structural)]
pub enum ErrorCode {
    /// A tick index is out of bounds, out of order, or not a multiple of the tick spacing.
    InvalidTickIndex,
    /// The tick spacing is zero.
    InvalidTickSpacing,
    /// The start of a tick array is out of bounds or not aligned to the array width.
    InvalidStartTick,
    /// The tick is not covered by the tick array, or is not a multiple of the tick spacing.
    TickNotFound,
    /// A tick array index exceeds the number of loaded arrays while reading or crossing a tick.
    TickArrayIndexOutofBounds,
    /// The traversal ran past the last loaded tick array.
    TickArraySequenceInvalidIndex,
    /// The loaded tick arrays do not cover the position the traversal has reached.
    InvalidTickArraySequence,
    /// A division by zero.
    DivideByZero,
    /// The quotient of a multiply-divide does not fit into 128 bits.
    MulDivOverflow,
    /// The shifted product of a multiply-shift does not fit into 64 bits.
    MultiplicationShiftRightOverflow,
    /// A product exceeds its representable width.
    MultiplicationOverflow,
    /// A 256-bit value does not fit into 128 bits.
    NumberDownCastError,
    /// A token amount exceeds the caller's maximum, or 64 bits.
    TokenMaxExceeded,
    /// A token amount falls below the caller's minimum.
    TokenMinSubceeded,
    /// A square-root price lies outside the supported range.
    SqrtPriceOutOfBounds,
    /// The price limit of a swap lies on the wrong side of the current price.
    InvalidSqrtPriceLimitDirection,
    /// The amount to trade is zero.
    ZeroTradableAmount,
    /// The accumulated counter-amount of a swap exceeds 64 bits.
    AmountCalcOverflow,
    /// The fee growth of a token would exceed 128 bits.
    FeeGrowthOverflow,
    /// The protocol's fees in a token would exceed 64 bits.
    ProtocolFeeOverflow,
    /// The growth of a reward would exceed 128 bits.
    RewardGrowthOverflow,
    /// What a position may collect of fees or of a reward would exceed 64 bits.
    AmountOwedOverflow,
    /// The requested liquidity is zero.
    LiquidityZero,
    /// The requested liquidity exceeds the largest signed 128-bit delta.
    LiquidityTooHigh,
    /// Liquidity would exceed 128 bits.
    LiquidityOverflow,
    /// Liquidity would fall below zero.
    LiquidityUnderflow,
    /// A tick's net liquidity would leave the signed 128-bit range.
    LiquidityNetError,
    /// The position still holds liquidity or owed balances.
    ClosePositionNotEmpty,
    /// The fee rate exceeds the supported maximum.
    FeeRateMaxExceeded,
    /// The protocol fee rate exceeds the supported maximum.
    ProtocolFeeRateMaxExceeded,
    /// The reward index does not name one of the pool's reward trackers.
    InvalidRewardIndex,
    /// The timestamp lies before the pool's last reward update.
    InvalidTimestamp,
}

} // verus!
