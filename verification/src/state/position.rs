use crate::errors::ErrorCode;
use crate::state::tick::{usable_tick, Tick};
use crate::state::whirlpool::Whirlpool;
use vstd::prelude::*;

verus! {

/// A position's share of one reward.
#[derive(Clone, Copy, Debug, PartialEq, Eq)]
pub struct PositionRewardInfo {
    /// The growth of the reward inside the position's range when it was last settled.
    pub growth_inside_checkpoint: u128,
    /// The reward that the position may collect.
    pub amount_owed: u64,
}

/// Liquidity that one owner has placed between two ticks of a pool.
#[derive(Clone, Copy, Debug, PartialEq, Eq)]
pub struct Position {
    /// The liquidity of the position.
    pub liquidity: u128,
    /// The lower end of the range.
    pub tick_lower_index: i32,
    /// The upper end of the range.
    pub tick_upper_index: i32,
    /// The fee growth of token A inside the range when the position was last settled.
    pub fee_growth_checkpoint_a: u128,
    /// The fees in token A that the position may collect.
    pub fee_owed_a: u64,
    /// The fee growth of token B inside the range when the position was last settled.
    pub fee_growth_checkpoint_b: u128,
    /// The fees in token B that the position may collect.
    pub fee_owed_b: u64,
    /// The position's share of each reward.
    pub reward_infos: [PositionRewardInfo; 3],
}

/// The new contents of a position, without its range.
#[derive(Clone, Copy, Debug, PartialEq, Eq)]
pub struct PositionUpdate {
    pub liquidity: u128,
    pub fee_growth_checkpoint_a: u128,
    pub fee_owed_a: u64,
    pub fee_growth_checkpoint_b: u128,
    pub fee_owed_b: u64,
    pub reward_infos: [PositionRewardInfo; 3],
}

/// Whether a position may span the two ticks: both lie in the supported range and on the
/// pool's grid, and the lower one is smaller.
pub open spec fn valid_range(tick_lower_index: i32, tick_upper_index: i32, tick_spacing: u16) -> bool {
    &&& usable_tick(tick_lower_index as int, tick_spacing)
    &&& usable_tick(tick_upper_index as int, tick_spacing)
    &&& tick_lower_index < tick_upper_index
}

impl Position {
    /// Whether the position holds no liquidity and nothing that it could collect.
    pub open spec fn is_empty(self) -> bool {
        &&& self.liquidity == 0
        &&& self.fee_owed_a == 0
        &&& self.fee_owed_b == 0
        &&& forall|i: int| 0 <= i < 3 ==> (#[trigger] self.reward_infos@[i]).amount_owed == 0
    }

    /// A position without liquidity between the two ticks.
    ///
    /// Fails with `InvalidTickIndex` where a tick lies outside the supported range or off
    /// the pool's grid, or the lower tick is not the smaller one.
    pub fn open_position(whirlpool: &Whirlpool, tick_lower_index: i32, tick_upper_index: i32) -> (r:
        Result<Position, ErrorCode>)
        ensures
            !valid_range(tick_lower_index, tick_upper_index, whirlpool.tick_spacing) ==> r == Err::<
                Position,
                ErrorCode,
            >(ErrorCode::InvalidTickIndex),
            valid_range(tick_lower_index, tick_upper_index, whirlpool.tick_spacing) ==> r is Ok,
            r matches Ok(position) ==> {
                &&& position.tick_lower_index == tick_lower_index
                &&& position.tick_upper_index == tick_upper_index
                &&& position.is_empty()
                &&& position.fee_growth_checkpoint_a == 0
                &&& position.fee_growth_checkpoint_b == 0
                &&& forall|i: int|
                    0 <= i < 3 ==> (#[trigger] position.reward_infos@[i]).growth_inside_checkpoint
                        == 0
            },
    {
        if !Tick::check_is_usable_tick(tick_lower_index, whirlpool.tick_spacing)
            || !Tick::check_is_usable_tick(tick_upper_index, whirlpool.tick_spacing)
            || tick_lower_index >= tick_upper_index {
            return Err(ErrorCode::InvalidTickIndex);
        }
        let reward = PositionRewardInfo { growth_inside_checkpoint: 0, amount_owed: 0 };
        Ok(
            Position {
                liquidity: 0,
                tick_lower_index,
                tick_upper_index,
                fee_growth_checkpoint_a: 0,
                fee_owed_a: 0,
                fee_growth_checkpoint_b: 0,
                fee_owed_b: 0,
                reward_infos: [reward;3],
            },
        )
    }

    /// Whether the position holds no liquidity and nothing that it could collect.
    pub fn is_position_empty(&self) -> (r: bool)
        ensures
            r == self.is_empty(),
    {
        let fees_empty = self.fee_owed_a == 0 && self.fee_owed_b == 0;
        let rewards_empty = self.reward_infos[0].amount_owed == 0 && self.reward_infos[1].amount_owed
            == 0 && self.reward_infos[2].amount_owed == 0;
        fees_empty && rewards_empty && self.liquidity == 0
    }

    /// Overwrites all but the range with the contents of `update`.
    pub fn update(&mut self, update: &PositionUpdate)
        ensures
            *final(self) == (Position {
                liquidity: update.liquidity,
                tick_lower_index: old(self).tick_lower_index,
                tick_upper_index: old(self).tick_upper_index,
                fee_growth_checkpoint_a: update.fee_growth_checkpoint_a,
                fee_owed_a: update.fee_owed_a,
                fee_growth_checkpoint_b: update.fee_growth_checkpoint_b,
                fee_owed_b: update.fee_owed_b,
                reward_infos: update.reward_infos,
            }),
    {
        self.liquidity = update.liquidity;
        self.fee_growth_checkpoint_a = update.fee_growth_checkpoint_a;
        self.fee_owed_a = update.fee_owed_a;
        self.fee_growth_checkpoint_b = update.fee_growth_checkpoint_b;
        self.fee_owed_b = update.fee_owed_b;
        self.reward_infos = update.reward_infos;
    }

    /// Hands out the fees: returns what is owed in each token and sets both balances to
    /// zero.
    pub fn reset_fees_owed(&mut self) -> (r: (u64, u64))
        ensures
            r == (old(self).fee_owed_a, old(self).fee_owed_b),
            *final(self) == (Position { fee_owed_a: 0, fee_owed_b: 0, ..*old(self) }),
    {
        let owed = (self.fee_owed_a, self.fee_owed_b);
        self.fee_owed_a = 0;
        self.fee_owed_b = 0;
        owed
    }

    /// Sets what the position may collect of the reward `index`.
    pub fn update_reward_owed(&mut self, index: usize, amount_owed: u64)
        requires
            index < 3,
        ensures
            final(self).reward_infos@ == old(self).reward_infos@.update(
                index as int,
                PositionRewardInfo {
                    growth_inside_checkpoint: old(
                        self,
                    ).reward_infos@[index as int].growth_inside_checkpoint,
                    amount_owed,
                },
            ),
            *final(self) == (Position { reward_infos: final(self).reward_infos, ..*old(self) }),
    {
        let mut info = self.reward_infos[index];
        info.amount_owed = amount_owed;
        self.reward_infos[index] = info;
    }
}

} // verus!
