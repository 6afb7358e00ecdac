//! Drawing the reward of a box and checking the rewards an admin sets up.
use vstd::prelude::*;
use crate::common::{bytes_eq, egld_name, is_esdt};
use super::config::{
    no_reward, rewards_view, MysteryBoxError, Reward, RewardType, RewardView, MAX_PERCENTAGE,
};

verus! {

/// The reward that draw `n` falls on when the chances of `list` are laid
/// end to end after `acc`: the first whose running total reaches `n`, or
/// the empty reward when none does.
pub open spec fn pick_reward(list: Seq<RewardView>, n: int, acc: int) -> RewardView
    decreases list.len(),
{
    if list.len() == 0 {
        no_reward()
    } else if n <= acc + list[0].percentage_chance {
        list[0]
    } else {
        pick_reward(list.drop_first(), n, acc + list[0].percentage_chance)
    }
}

/// The reward that draw `n`, from 1 to 100%, wins among `list`.
pub open spec fn winning_reward(list: Seq<RewardView>, n: u64) -> RewardView {
    pick_reward(list, n as int, 0)
}

/// Why a reward of kind `t` with the given token, value and description may
/// not be set up, if it may not; `box_token` is the mystery box token.
pub open spec fn reward_kind_error(
    t: RewardType,
    token: Seq<u8>,
    value: u128,
    description: Seq<u8>,
    box_token: Seq<u8>,
) -> Option<MysteryBoxError> {
    match t {
        RewardType::ExperiencePoints => if value == 0 {
            Some(MysteryBoxError::ExperiencePointsZero)
        } else {
            None
        },
        RewardType::MysteryBox => if token != box_token {
            Some(MysteryBoxError::MysteryBoxTokenMismatch)
        } else {
            None
        },
        RewardType::SFT => if token == egld_name() {
            Some(MysteryBoxError::RewardTokenNotEsdt)
        } else {
            None
        },
        RewardType::PercentValue => if value == 0 || value > MAX_PERCENTAGE {
            Some(MysteryBoxError::InvalidRewardPercentage)
        } else {
            None
        },
        RewardType::FixedValue => if value == 0 {
            Some(MysteryBoxError::FixedValueZero)
        } else {
            None
        },
        RewardType::CustomReward => if description.len() == 0 {
            Some(MysteryBoxError::CustomRewardWithoutDescription)
        } else {
            None
        },
        _ => None,
    }
}

/// Why a reward may not be set up, if it may not.
pub open spec fn reward_error(r: RewardView, box_token: Seq<u8>) -> Option<MysteryBoxError> {
    reward_kind_error(r.reward_type, r.reward_token_id, r.value, r.description, box_token)
}

proof fn lemma_pick_reward_step(list: Seq<RewardView>, i: int, n: int, acc: int)
    requires
        0 <= i < list.len(),
        n > acc + list[i].percentage_chance,
    ensures
        pick_reward(list.subrange(i, list.len() as int), n, acc) == pick_reward(
            list.subrange(i + 1, list.len() as int),
            n,
            acc + list[i].percentage_chance,
        ),
{
    assert(list.subrange(i, list.len() as int).drop_first() =~= list.subrange(
        i + 1,
        list.len() as int,
    ));
}

/// The reward that draw `winner_number` wins among `rewards_list`: the first
/// whose running total of chances reaches the draw; the empty reward for an
/// empty list or a draw past the total.
pub fn get_winning_reward(rewards_list: &Vec<Reward>, winner_number: u64) -> (r: Reward)
    ensures
        r@ == winning_reward(rewards_view(rewards_list@), winner_number),
{
    let ghost list = rewards_view(rewards_list@);
    if rewards_list.len() == 0 {
        return Reward::default();
    }
    let mut cumulative_percentage: u128 = 0;
    let mut i: usize = 0;
    proof {
        assert(list.subrange(0, list.len() as int) =~= list);
    }
    while i < rewards_list.len()
        invariant
            list == rewards_view(rewards_list@),
            i <= rewards_list@.len(),
            cumulative_percentage <= winner_number,
            winning_reward(list, winner_number) == pick_reward(
                list.subrange(i as int, list.len() as int),
                winner_number as int,
                cumulative_percentage as int,
            ),
        decreases rewards_list.len() - i,
    {
        let reward = &rewards_list[i];
        cumulative_percentage = cumulative_percentage + reward.percentage_chance as u128;
        if (winner_number as u128) <= cumulative_percentage {
            proof {
                assert(list.subrange(i as int, list.len() as int)[0] == list[i as int]);
            }
            return reward.duplicate();
        }
        proof {
            lemma_pick_reward_step(list, i as int, winner_number as int, cumulative_percentage - list[i as int].percentage_chance);
        }
        i = i + 1;
    }
    proof {
        assert(list.subrange(i as int, list.len() as int) =~= Seq::<RewardView>::empty());
    }
    Reward::default()
}

/// Fails with the reason a reward of kind `reward_type` with the given
/// token, value and description may not be set up, if it may not;
/// `box_token` is the mystery box token.
pub fn check_reward_kind(
    reward_type: RewardType,
    reward_token_id: &Vec<u8>,
    value: u128,
    description: &Vec<u8>,
    box_token: &Vec<u8>,
) -> (r: Result<(), MysteryBoxError>)
    ensures
        match reward_kind_error(reward_type, reward_token_id@, value, description@, box_token@) {
            Some(e) => r == Err::<(), MysteryBoxError>(e),
            None => r is Ok,
        },
{
    match reward_type {
        RewardType::ExperiencePoints => {
            if value == 0 {
                return Err(MysteryBoxError::ExperiencePointsZero);
            }
        },
        RewardType::MysteryBox => {
            if !bytes_eq(reward_token_id, box_token) {
                return Err(MysteryBoxError::MysteryBoxTokenMismatch);
            }
        },
        RewardType::SFT => {
            if !is_esdt(reward_token_id) {
                return Err(MysteryBoxError::RewardTokenNotEsdt);
            }
        },
        RewardType::PercentValue => {
            if !(value > 0 && value <= MAX_PERCENTAGE as u128) {
                return Err(MysteryBoxError::InvalidRewardPercentage);
            }
        },
        RewardType::FixedValue => {
            if value == 0 {
                return Err(MysteryBoxError::FixedValueZero);
            }
        },
        RewardType::CustomReward => {
            if description.len() == 0 {
                return Err(MysteryBoxError::CustomRewardWithoutDescription);
            }
        },
        _ => {},
    }
    Ok(())
}

/// Fails with the reason the reward may not be set up, if it may not;
/// `box_token` is the mystery box token.
pub fn check_reward_validity(reward: &Reward, box_token: &Vec<u8>) -> (r: Result<(), MysteryBoxError>)
    ensures
        match reward_error(reward@, box_token@) {
            Some(e) => r == Err::<(), MysteryBoxError>(e),
            None => r is Ok,
        },
{
    check_reward_kind(
        reward.reward_type,
        &reward.reward_token_id,
        reward.value,
        &reward.description,
        box_token,
    )
}

} // verus!
