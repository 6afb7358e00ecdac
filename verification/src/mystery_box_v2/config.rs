//! The rewards of the second mystery box and their cooldowns.
use vstd::prelude::*;
use crate::common::egld_name;
use crate::mystery_box::config::RewardType;

verus! {

/// How a reward is held back once won: not at all; after a number of wins
/// in all; or after a number of wins per period of epochs, counted afresh
/// when a period is over.
#[derive(Clone, Copy, Debug, PartialEq, Eq, Structural)]
pub enum CooldownType {
    NoCooldown,
    Lifetime,
    ResetOnCooldown,
}

/// A reward with its id and its chance, in hundredths of a percent. `value`
/// stands for the contract's big unsigned integer amount.
#[derive(Clone, Debug)]
pub struct Reward {
    pub reward_id: u64,
    pub reward_type: RewardType,
    pub reward_token_id: Vec<u8>,
    pub value: u128,
    pub description: Vec<u8>,
    pub percentage_chance: u64,
}

/// A reward as plain values.
pub ghost struct RewardView {
    pub reward_id: u64,
    pub reward_type: RewardType,
    pub reward_token_id: Seq<u8>,
    pub value: u128,
    pub description: Seq<u8>,
    pub percentage_chance: u64,
}

impl View for Reward {
    type V = RewardView;

    open spec fn view(&self) -> RewardView {
        RewardView {
            reward_id: self.reward_id,
            reward_type: self.reward_type,
            reward_token_id: self.reward_token_id@,
            value: self.value,
            description: self.description@,
            percentage_chance: self.percentage_chance,
        }
    }
}

pub open spec fn rewards_view(v: Seq<Reward>) -> Seq<RewardView> {
    v.map_values(|r: Reward| r@)
}

/// The reward of an empty box: nothing, in EGLD, with no id.
pub open spec fn no_reward() -> RewardView {
    RewardView {
        reward_id: 0,
        reward_type: RewardType::NoReward,
        reward_token_id: egld_name(),
        value: 0,
        description: Seq::empty(),
        percentage_chance: 0,
    }
}

/// The cooldown of a reward: how many more times it can be won in the
/// current period, and when that period began.
#[derive(Clone, Copy, Debug, PartialEq, Eq, Structural)]
pub struct RewardCooldown {
    pub cooldown_type: CooldownType,
    pub wins_per_cooldown: u64,
    pub cooldown_epochs: u64,
    pub remaining_epoch_wins: u64,
    pub last_update_epoch: u64,
}

/// A reward as an admin sets it up, with its cooldown.
#[derive(Clone, Debug)]
pub struct RewardSetup {
    pub reward_type: RewardType,
    pub reward_token_id: Vec<u8>,
    pub value: u128,
    pub description: Vec<u8>,
    pub percentage_chance: u64,
    pub cooldown_type: CooldownType,
    pub wins_per_cooldown: u64,
    pub cooldown_epochs: u64,
}

/// A reward setup as plain values.
pub ghost struct RewardSetupView {
    pub reward_type: RewardType,
    pub reward_token_id: Seq<u8>,
    pub value: u128,
    pub description: Seq<u8>,
    pub percentage_chance: u64,
    pub cooldown_type: CooldownType,
    pub wins_per_cooldown: u64,
    pub cooldown_epochs: u64,
}

impl View for RewardSetup {
    type V = RewardSetupView;

    open spec fn view(&self) -> RewardSetupView {
        RewardSetupView {
            reward_type: self.reward_type,
            reward_token_id: self.reward_token_id@,
            value: self.value,
            description: self.description@,
            percentage_chance: self.percentage_chance,
            cooldown_type: self.cooldown_type,
            wins_per_cooldown: self.wins_per_cooldown,
            cooldown_epochs: self.cooldown_epochs,
        }
    }
}

pub open spec fn setups_view(v: Seq<RewardSetup>) -> Seq<RewardSetupView> {
    v.map_values(|r: RewardSetup| r@)
}

impl Reward {
    pub fn new(
        reward_id: u64,
        reward_type: RewardType,
        reward_token_id: Vec<u8>,
        value: u128,
        description: Vec<u8>,
        percentage_chance: u64,
    ) -> (r: Self)
        ensures
            r@ == (RewardView {
                reward_id,
                reward_type,
                reward_token_id: reward_token_id@,
                value,
                description: description@,
                percentage_chance,
            }),
    {
        Reward { reward_id, reward_type, reward_token_id, value, description, percentage_chance }
    }

    /// A copy of the reward.
    pub fn duplicate(&self) -> (r: Self)
        ensures
            r@ == self@,
    {
        Reward {
            reward_id: self.reward_id,
            reward_type: self.reward_type,
            reward_token_id: self.reward_token_id.clone(),
            value: self.value,
            description: self.description.clone(),
            percentage_chance: self.percentage_chance,
        }
    }
}

impl Default for Reward {
    fn default() -> (r: Self)
        ensures
            r@ == no_reward(),
    {
        Reward {
            reward_id: 0,
            reward_type: RewardType::NoReward,
            reward_token_id: crate::common::egld_token_name(),
            value: 0,
            description: Vec::new(),
            percentage_chance: 0,
        }
    }
}

impl RewardCooldown {
    pub fn new(
        cooldown_type: CooldownType,
        wins_per_cooldown: u64,
        cooldown_epochs: u64,
        remaining_epoch_wins: u64,
        last_update_epoch: u64,
    ) -> (c: Self)
        ensures
            c == (RewardCooldown {
                cooldown_type,
                wins_per_cooldown,
                cooldown_epochs,
                remaining_epoch_wins,
                last_update_epoch,
            }),
    {
        RewardCooldown {
            cooldown_type,
            wins_per_cooldown,
            cooldown_epochs,
            remaining_epoch_wins,
            last_update_epoch,
        }
    }
}

/// A copy of a list of rewards.
pub fn duplicate_rewards(v: &Vec<Reward>) -> (r: Vec<Reward>)
    ensures
        rewards_view(r@) == rewards_view(v@),
{
    let mut r: Vec<Reward> = Vec::new();
    let mut i: usize = 0;
    while i < v.len()
        invariant
            i <= v.len(),
            r@.len() == i,
            forall|j: int| 0 <= j < i ==> r@[j]@ == v@[j]@,
        decreases v.len() - i,
    {
        r.push(v[i].duplicate());
        i = i + 1;
    }
    assert(rewards_view(r@) =~= rewards_view(v@));
    r
}

} // verus!
