//! Drawing the reward of a box, checking the rewards an admin sets up, and
//! counting the wins a cooldown allows.
use vstd::prelude::*;
use crate::mystery_box::config::MysteryBoxError;
use crate::mystery_box::rewards::{check_reward_kind, reward_kind_error};
use super::config::{no_reward, rewards_view, CooldownType, Reward, RewardCooldown, RewardView};

verus! {

/// The reward that draw `n` falls on when the chances of `list` are laid
/// end to end after `acc`: the first whose running total reaches `n`, or
/// the empty reward when none does.
pub open spec fn pick_reward(list: Seq<RewardView>, n: int, acc: int) -> RewardView
    decreases list.len(),
{
    if list.len() == 0 {
        no_reward()
    } else if n <= acc + list[0].percentage_chance {
        list[0]
    } else {
        pick_reward(list.drop_first(), n, acc + list[0].percentage_chance)
    }
}

/// The reward that draw `n`, from 1 to 100%, wins among `list`.
pub open spec fn winning_reward(list: Seq<RewardView>, n: u64) -> RewardView {
    pick_reward(list, n as int, 0)
}

proof fn lemma_pick_reward_step(list: Seq<RewardView>, i: int, n: int, acc: int)
    requires
        0 <= i < list.len(),
        n > acc + list[i].percentage_chance,
    ensures
        pick_reward(list.subrange(i, list.len() as int), n, acc) == pick_reward(
            list.subrange(i + 1, list.len() as int),
            n,
            acc + list[i].percentage_chance,
        ),
{
    assert(list.subrange(i, list.len() as int).drop_first() =~= list.subrange(
        i + 1,
        list.len() as int,
    ));
}

/// The reward that draw `winner_number` wins among `rewards_list`: the first
/// whose running total of chances reaches the draw; the empty reward for an
/// empty list or a draw past the total.
pub fn get_winning_reward(rewards_list: &Vec<Reward>, winner_number: u64) -> (r: Reward)
    ensures
        r@ == winning_reward(rewards_view(rewards_list@), winner_number),
{
    let ghost list = rewards_view(rewards_list@);
    if rewards_list.len() == 0 {
        return Reward::default();
    }
    let mut cumulative_percentage: u128 = 0;
    let mut i: usize = 0;
    proof {
        assert(list.subrange(0, list.len() as int) =~= list);
    }
    while i < rewards_list.len()
        invariant
            list == rewards_view(rewards_list@),
            i <= rewards_list@.len(),
            cumulative_percentage <= winner_number,
            winning_reward(list, winner_number) == pick_reward(
                list.subrange(i as int, list.len() as int),
                winner_number as int,
                cumulative_percentage as int,
            ),
        decreases rewards_list.len() - i,
    {
        let reward = &rewards_list[i];
        cumulative_percentage = cumulative_percentage + reward.percentage_chance as u128;
        if (winner_number as u128) <= cumulative_percentage {
            proof {
                assert(list.subrange(i as int, list.len() as int)[0] == list[i as int]);
            }
            return reward.duplicate();
        }
        proof {
            lemma_pick_reward_step(list, i as int, winner_number as int, cumulative_percentage - list[i as int].percentage_chance);
        }
        i = i + 1;
    }
    proof {
        assert(list.subrange(i as int, list.len() as int) =~= Seq::<RewardView>::empty());
    }
    Reward::default()
}

/// Why a cooldown may not be set up, if it may not: a resettable one needs
/// wins and a period, and any cooldown with a period needs wins.
pub open spec fn cooldown_error(c: RewardCooldown) -> Option<MysteryBoxError> {
    if c.cooldown_type == CooldownType::ResetOnCooldown && !(c.wins_per_cooldown > 0
        && c.cooldown_epochs > 0) {
        Some(MysteryBoxError::InvalidResettableCooldown)
    } else if c.cooldown_epochs > 0 && c.wins_per_cooldown == 0 {
        Some(MysteryBoxError::ZeroWinsPerCooldown)
    } else {
        None
    }
}

/// Why a reward with its cooldown may not be set up, if it may not.
pub open spec fn reward_error(r: RewardView, c: RewardCooldown, box_token: Seq<u8>) -> Option<
    MysteryBoxError,
> {
    match cooldown_error(c) {
        Some(e) => Some(e),
        None => reward_kind_error(r.reward_type, r.reward_token_id, r.value, r.description, box_token),
    }
}

/// Fails with the reason the reward with its cooldown may not be set up, if
/// it may not; `box_token` is the mystery box token.
pub fn check_reward_validity(reward: &Reward, reward_cooldown: &RewardCooldown, box_token: &Vec<u8>) -> (r:
    Result<(), MysteryBoxError>)
    ensures
        match reward_error(reward@, *reward_cooldown, box_token@) {
            Some(e) => r == Err::<(), MysteryBoxError>(e),
            None => r is Ok,
        },
{
    if reward_cooldown.cooldown_type == CooldownType::ResetOnCooldown {
        if !(reward_cooldown.wins_per_cooldown > 0 && reward_cooldown.cooldown_epochs > 0) {
            return Err(MysteryBoxError::InvalidResettableCooldown);
        }
    }
    if reward_cooldown.cooldown_epochs > 0 {
        if !(reward_cooldown.wins_per_cooldown > 0) {
            return Err(MysteryBoxError::ZeroWinsPerCooldown);
        }
    }
    check_reward_kind(
        reward.reward_type,
        &reward.reward_token_id,
        reward.value,
        &reward.description,
        box_token,
    )
}

/// A win counted against cooldown `c` in `epoch`: a resettable cooldown
/// whose period is over starts a new period with all its wins; a win is
/// then used up if one is left. Returns the cooldown after it and whether
/// the reward is held back, or an overflow of the end of the period.
pub open spec fn cooldown_after(c: RewardCooldown, epoch: u64) -> Result<(RewardCooldown, bool), MysteryBoxError> {
    if c.cooldown_type == CooldownType::NoCooldown {
        Ok((c, false))
    } else if c.cooldown_type == CooldownType::ResetOnCooldown && c.last_update_epoch
        + c.cooldown_epochs > u64::MAX {
        Err(MysteryBoxError::ArithmeticOverflow)
    } else {
        let c1 = if c.cooldown_type == CooldownType::ResetOnCooldown && epoch >= c.last_update_epoch
            + c.cooldown_epochs {
            RewardCooldown {
                last_update_epoch: epoch,
                remaining_epoch_wins: c.wins_per_cooldown,
                ..c
            }
        } else {
            c
        };
        if c1.remaining_epoch_wins > 0 {
            Ok((RewardCooldown { remaining_epoch_wins: (c1.remaining_epoch_wins - 1) as u64, ..c1 }, false))
        } else {
            Ok((c1, true))
        }
    }
}

/// Counts a win against `reward_cooldown` in `current_epoch`.
pub fn next_cooldown(reward_cooldown: &RewardCooldown, current_epoch: u64) -> (r: Result<
    (RewardCooldown, bool),
    MysteryBoxError,
>)
    ensures
        r == cooldown_after(*reward_cooldown, current_epoch),
{
    let mut cooldown = *reward_cooldown;
    if cooldown.cooldown_type == CooldownType::NoCooldown {
        return Ok((cooldown, false));
    }
    let mut cooldown_check = true;
    if cooldown.cooldown_type == CooldownType::ResetOnCooldown {
        if cooldown.cooldown_epochs > u64::MAX - cooldown.last_update_epoch {
            return Err(MysteryBoxError::ArithmeticOverflow);
        }
        if current_epoch >= cooldown.last_update_epoch + cooldown.cooldown_epochs {
            cooldown.last_update_epoch = current_epoch;
            cooldown.remaining_epoch_wins = cooldown.wins_per_cooldown;
        }
    }
    if cooldown.remaining_epoch_wins > 0 {
        cooldown.remaining_epoch_wins = cooldown.remaining_epoch_wins - 1;
        cooldown_check = false;
    }
    Ok((cooldown, cooldown_check))
}

} // verus!
