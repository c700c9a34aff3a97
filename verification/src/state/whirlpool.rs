use crate::errors::ErrorCode;
use crate::math::token_math::{MAX_FEE_RATE, MAX_PROTOCOL_FEE_RATE};
use vstd::prelude::*;

verus! {

/// One reward of a pool: what it emits and what it has paid out per unit of liquidity.
#[derive(Clone, Copy, Debug, PartialEq, Eq)]
pub struct WhirlpoolRewardInfo {
    /// Whether the reward has been set up.
    pub initialized: bool,
    /// The reward emitted per second, as a Q64.64 fixed-point number.
    pub emissions_per_second_x64: u128,
    /// The reward emitted so far per unit of liquidity, as a Q64.64 fixed-point number.
    pub growth_global_x64: u128,
}

/// A pool: one traded pair at one fee tier.
#[derive(Clone, Copy, Debug, PartialEq, Eq)]
pub struct Whirlpool {
    /// The distance between two ticks that positions may use.
    pub tick_spacing: u16,
    /// The fee on the input of a swap, in hundredths of a basis point.
    pub fee_rate: u16,
    /// The protocol's share of the fee, in basis points.
    pub protocol_fee_rate: u16,
    /// The liquidity that is active at the current price.
    pub liquidity: u128,
    /// The current square-root price, as a Q64.64 fixed-point number.
    pub sqrt_price: u128,
    /// The tick of the current price.
    pub tick_current_index: i32,
    /// The protocol's share of the fees in token A that is not yet collected.
    pub protocol_fee_owed_a: u64,
    /// The protocol's share of the fees in token B that is not yet collected.
    pub protocol_fee_owed_b: u64,
    /// The fees in token A earned so far per unit of liquidity.
    pub fee_growth_global_a: u128,
    /// The fees in token B earned so far per unit of liquidity.
    pub fee_growth_global_b: u128,
    /// When the rewards were last brought up to date.
    pub reward_last_updated_timestamp: u64,
    /// The rewards of the pool.
    pub reward_infos: [WhirlpoolRewardInfo; 3],
}

impl WhirlpoolRewardInfo {
    /// The reward that has not been set up.
    pub open spec fn unset() -> WhirlpoolRewardInfo {
        WhirlpoolRewardInfo { initialized: false, emissions_per_second_x64: 0, growth_global_x64: 0 }
    }

    /// A reward that has not been set up.
    pub fn new() -> (r: WhirlpoolRewardInfo)
        ensures
            r == WhirlpoolRewardInfo::unset(),
    {
        WhirlpoolRewardInfo { initialized: false, emissions_per_second_x64: 0, growth_global_x64: 0 }
    }

    /// The growth of each reward.
    pub fn to_reward_growths(reward_infos: &[WhirlpoolRewardInfo; 3]) -> (r: [u128; 3])
        ensures
            forall|i: int| 0 <= i < 3 ==> r@[i] == reward_infos@[i].growth_global_x64,
    {
        [
            reward_infos[0].growth_global_x64,
            reward_infos[1].growth_global_x64,
            reward_infos[2].growth_global_x64,
        ]
    }
}

impl Whirlpool {
    /// A pool without liquidity at `sqrt_price`, whose current tick is `tick_current_index`.
    ///
    /// Fails with `InvalidTickSpacing` on a zero spacing, with `FeeRateMaxExceeded` and
    /// `ProtocolFeeRateMaxExceeded` where a rate exceeds its maximum.
    pub fn initialize(
        tick_spacing: u16,
        fee_rate: u16,
        protocol_fee_rate: u16,
        sqrt_price: u128,
        tick_current_index: i32,
    ) -> (r: Result<Whirlpool, ErrorCode>)
        ensures
            tick_spacing == 0 ==> r == Err::<Whirlpool, ErrorCode>(ErrorCode::InvalidTickSpacing),
            tick_spacing != 0 && fee_rate > MAX_FEE_RATE ==> r == Err::<Whirlpool, ErrorCode>(
                ErrorCode::FeeRateMaxExceeded,
            ),
            tick_spacing != 0 && fee_rate <= MAX_FEE_RATE && protocol_fee_rate
                > MAX_PROTOCOL_FEE_RATE ==> r == Err::<Whirlpool, ErrorCode>(
                ErrorCode::ProtocolFeeRateMaxExceeded,
            ),
            tick_spacing != 0 && fee_rate <= MAX_FEE_RATE && protocol_fee_rate
                <= MAX_PROTOCOL_FEE_RATE ==> r is Ok,
            r matches Ok(pool) ==> {
                &&& pool.tick_spacing == tick_spacing
                &&& pool.fee_rate == fee_rate
                &&& pool.protocol_fee_rate == protocol_fee_rate
                &&& pool.liquidity == 0
                &&& pool.sqrt_price == sqrt_price
                &&& pool.tick_current_index == tick_current_index
                &&& pool.protocol_fee_owed_a == 0
                &&& pool.protocol_fee_owed_b == 0
                &&& pool.fee_growth_global_a == 0
                &&& pool.fee_growth_global_b == 0
                &&& pool.reward_last_updated_timestamp == 0
                &&& forall|i: int|
                    0 <= i < 3 ==> #[trigger] pool.reward_infos@[i] == WhirlpoolRewardInfo::unset()
            },
    {
        if tick_spacing == 0 {
            return Err(ErrorCode::InvalidTickSpacing);
        }
        if fee_rate > MAX_FEE_RATE {
            return Err(ErrorCode::FeeRateMaxExceeded);
        }
        if protocol_fee_rate > MAX_PROTOCOL_FEE_RATE {
            return Err(ErrorCode::ProtocolFeeRateMaxExceeded);
        }
        Ok(
            Whirlpool {
                tick_spacing,
                fee_rate,
                protocol_fee_rate,
                liquidity: 0,
                sqrt_price,
                tick_current_index,
                protocol_fee_owed_a: 0,
                protocol_fee_owed_b: 0,
                fee_growth_global_a: 0,
                fee_growth_global_b: 0,
                reward_last_updated_timestamp: 0,
                reward_infos: [WhirlpoolRewardInfo::new();3],
            },
        )
    }

    /// Sets the fee rate. Fails with `FeeRateMaxExceeded` above the maximum, and then
    /// changes nothing.
    pub fn update_fee_rate(&mut self, fee_rate: u16) -> (r: Result<(), ErrorCode>)
        ensures
            fee_rate > MAX_FEE_RATE ==> r == Err::<(), ErrorCode>(ErrorCode::FeeRateMaxExceeded)
                && *final(self) == *old(self),
            fee_rate <= MAX_FEE_RATE ==> r is Ok && *final(self) == (Whirlpool {
                fee_rate,
                ..*old(self)
            }),
    {
        if fee_rate > MAX_FEE_RATE {
            return Err(ErrorCode::FeeRateMaxExceeded);
        }
        self.fee_rate = fee_rate;
        Ok(())
    }

    /// Sets the protocol fee rate. Fails with `ProtocolFeeRateMaxExceeded` above the
    /// maximum, and then changes nothing.
    pub fn update_protocol_fee_rate(&mut self, protocol_fee_rate: u16) -> (r: Result<
        (),
        ErrorCode,
    >)
        ensures
            protocol_fee_rate > MAX_PROTOCOL_FEE_RATE ==> r == Err::<(), ErrorCode>(
                ErrorCode::ProtocolFeeRateMaxExceeded,
            ) && *final(self) == *old(self),
            protocol_fee_rate <= MAX_PROTOCOL_FEE_RATE ==> r is Ok && *final(self) == (Whirlpool {
                protocol_fee_rate,
                ..*old(self)
            }),
    {
        if protocol_fee_rate > MAX_PROTOCOL_FEE_RATE {
            return Err(ErrorCode::ProtocolFeeRateMaxExceeded);
        }
        self.protocol_fee_rate = protocol_fee_rate;
        Ok(())
    }

    /// Takes over the rewards and the liquidity that a change of a position's liquidity
    /// has computed.
    pub fn update_rewards_and_liquidity(
        &mut self,
        reward_infos: [WhirlpoolRewardInfo; 3],
        liquidity: u128,
        reward_last_updated_timestamp: u64,
    )
        ensures
            *final(self) == (Whirlpool {
                reward_infos,
                liquidity,
                reward_last_updated_timestamp,
                ..*old(self)
            }),
    {
        self.reward_infos = reward_infos;
        self.liquidity = liquidity;
        self.reward_last_updated_timestamp = reward_last_updated_timestamp;
    }

    /// The pool after a swap, or the error with which taking over its result fails.
    ///
    /// The fee growth and the protocol fee are those of the token that the swap took in:
    /// the fee growth is set, and the protocol fee is added to what is owed. That fails
    /// with `ProtocolFeeOverflow` where what is owed would exceed 64 bits.
    pub open spec fn after_swap(
        self,
        liquidity: u128,
        tick_index: i32,
        sqrt_price: u128,
        fee_growth_global: u128,
        reward_infos: [WhirlpoolRewardInfo; 3],
        protocol_fee: u64,
        is_token_fee_in_a: bool,
        reward_last_updated_timestamp: u64,
    ) -> Result<Whirlpool, ErrorCode> {
        let owed = if is_token_fee_in_a {
            self.protocol_fee_owed_a + protocol_fee
        } else {
            self.protocol_fee_owed_b + protocol_fee
        };
        if owed > u64::MAX {
            Err(ErrorCode::ProtocolFeeOverflow)
        } else {
            Ok(
                Whirlpool {
                    tick_current_index: tick_index,
                    sqrt_price,
                    liquidity,
                    reward_infos,
                    reward_last_updated_timestamp,
                    fee_growth_global_a: if is_token_fee_in_a {
                        fee_growth_global
                    } else {
                        self.fee_growth_global_a
                    },
                    fee_growth_global_b: if is_token_fee_in_a {
                        self.fee_growth_global_b
                    } else {
                        fee_growth_global
                    },
                    protocol_fee_owed_a: if is_token_fee_in_a {
                        owed as u64
                    } else {
                        self.protocol_fee_owed_a
                    },
                    protocol_fee_owed_b: if is_token_fee_in_a {
                        self.protocol_fee_owed_b
                    } else {
                        owed as u64
                    },
                    ..self
                },
            )
        }
    }

    /// Takes over what a swap has computed. After a failure the pool is as it was.
    pub fn update_after_swap(
        &mut self,
        liquidity: u128,
        tick_index: i32,
        sqrt_price: u128,
        fee_growth_global: u128,
        reward_infos: [WhirlpoolRewardInfo; 3],
        protocol_fee: u64,
        is_token_fee_in_a: bool,
        reward_last_updated_timestamp: u64,
    ) -> (r: Result<(), ErrorCode>)
        ensures
            match old(self).after_swap(
                liquidity,
                tick_index,
                sqrt_price,
                fee_growth_global,
                reward_infos,
                protocol_fee,
                is_token_fee_in_a,
                reward_last_updated_timestamp,
            ) {
                Err(e) => r == Err::<(), ErrorCode>(e) && *final(self) == *old(self),
                Ok(pool) => r is Ok && *final(self) == pool,
            },
    {
        let owed_before: u64 = if is_token_fee_in_a {
            self.protocol_fee_owed_a
        } else {
            self.protocol_fee_owed_b
        };
        let owed: u64 = match owed_before.checked_add(protocol_fee) {
            Some(owed) => owed,
            None => { return Err(ErrorCode::ProtocolFeeOverflow); },
        };
        self.tick_current_index = tick_index;
        self.sqrt_price = sqrt_price;
        self.liquidity = liquidity;
        self.reward_infos = reward_infos;
        self.reward_last_updated_timestamp = reward_last_updated_timestamp;
        if is_token_fee_in_a {
            self.fee_growth_global_a = fee_growth_global;
            self.protocol_fee_owed_a = owed;
        } else {
            self.fee_growth_global_b = fee_growth_global;
            self.protocol_fee_owed_b = owed;
        }
        Ok(())
    }

    /// Hands out the protocol's fees: returns what is owed in each token and sets both
    /// balances to zero.
    pub fn reset_protocol_fees_owed(&mut self) -> (r: (u64, u64))
        ensures
            r == (old(self).protocol_fee_owed_a, old(self).protocol_fee_owed_b),
            *final(self) == (Whirlpool {
                protocol_fee_owed_a: 0,
                protocol_fee_owed_b: 0,
                ..*old(self)
            }),
    {
        let owed = (self.protocol_fee_owed_a, self.protocol_fee_owed_b);
        self.protocol_fee_owed_a = 0;
        self.protocol_fee_owed_b = 0;
        owed
    }
}

} // verus!
