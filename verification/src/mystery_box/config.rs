//! The rewards of a mystery box and the reasons the contract refuses a call.
use vstd::prelude::*;
use crate::common::egld_name;

verus! {

/// The chances of the rewards of a box add up to this, in hundredths of a percent.
pub const MAX_PERCENTAGE: u64 = 10_000;

/// A box is opened by sending exactly one of it.
pub const SFT_AMOUNT: u64 = 1;

/// The royalties of the box tokens, in hundredths of a percent.
pub const ROYALTIES: u64 = 1_000;

/// The name of the box collection: "Mystery Box".
pub open spec fn collection_name() -> Seq<u8> {
    seq![77u8, 121u8, 115u8, 116u8, 101u8, 114u8, 121u8, 32u8, 66u8, 111u8, 120u8]
}

/// The name of the box collection: "Mystery Box".
pub fn collection_name_bytes() -> (v: Vec<u8>)
    ensures
        v@ == collection_name(),
{
    let v: Vec<u8> = vec![77u8, 121u8, 115u8, 116u8, 101u8, 114u8, 121u8, 32u8, 66u8, 111u8, 120u8];
    assert(v@ =~= collection_name());
    v
}

/// The kinds of reward a box may hold; `NoReward` is what an empty box gives.
#[derive(Clone, Copy, Debug, PartialEq, Eq, Structural)]
pub enum RewardType {
    NoReward,
    ExperiencePoints,
    MysteryBox,
    SFT,
    PercentValue,
    FixedValue,
    CustomReward,
}

/// A reward with its chance, in hundredths of a percent, and the number of
/// epochs during which no reward of its kind can be won again once it was.
/// `value` stands for the contract's big unsigned integer amount.
#[derive(Clone, Debug)]
pub struct Reward {
    pub reward_type: RewardType,
    pub reward_token_id: Vec<u8>,
    pub value: u128,
    pub description: Vec<u8>,
    pub percentage_chance: u64,
    pub epochs_cooldown: u64,
}

/// A reward as plain values.
pub ghost struct RewardView {
    pub reward_type: RewardType,
    pub reward_token_id: Seq<u8>,
    pub value: u128,
    pub description: Seq<u8>,
    pub percentage_chance: u64,
    pub epochs_cooldown: u64,
}

impl View for Reward {
    type V = RewardView;

    open spec fn view(&self) -> RewardView {
        RewardView {
            reward_type: self.reward_type,
            reward_token_id: self.reward_token_id@,
            value: self.value,
            description: self.description@,
            percentage_chance: self.percentage_chance,
            epochs_cooldown: self.epochs_cooldown,
        }
    }
}

pub open spec fn rewards_view(v: Seq<Reward>) -> Seq<RewardView> {
    v.map_values(|r: Reward| r@)
}

/// The reward of an empty box: nothing, in EGLD, with no cooldown.
pub open spec fn no_reward() -> RewardView {
    RewardView {
        reward_type: RewardType::NoReward,
        reward_token_id: egld_name(),
        value: 0,
        description: Seq::empty(),
        percentage_chance: 0,
        epochs_cooldown: 0,
    }
}

/// The reasons a mystery box endpoint fails; each names the message the
/// contract fails with.
#[derive(Clone, Copy, Debug, PartialEq, Eq, Structural)]
pub enum MysteryBoxError {
    /// "Invalid token ID"
    InvalidTokenId,
    /// "Endpoint can only be called by admins"
    NotAdmin,
    /// "Endpoint can only be called by owner"
    NotOwner,
    /// "The total percentage must be 100%"
    TotalPercentageNot100,
    /// "The experience points amount must be greater than 0"
    ExperiencePointsZero,
    /// "The reward token id must be the same as the mystery box"
    MysteryBoxTokenMismatch,
    /// "The reward token id must be an ESDT"
    RewardTokenNotEsdt,
    /// "The reward percentage must be positive and <= 100%"
    InvalidRewardPercentage,
    /// "The reward amount must be greater than 0"
    FixedValueZero,
    /// "The custom reward needs to have a description"
    CustomRewardWithoutDescription,
    /// "Invalid cooldown input for resettable cooldown type"
    InvalidResettableCooldown,
    /// "Wins per cooldown must be greater than 0 for rewards with cooldown"
    ZeroWinsPerCooldown,
    /// "The Mystery Box must be set up first"
    NotSetUp,
    /// "Only user accounts can open mystery boxes"
    OnlyUserAccounts,
    /// "incorrect number of ESDT transfers"
    IncorrectNumberOfEsdtTransfers,
    /// "Bad payment token"
    BadPaymentToken,
    /// "Bad payment amount"
    BadPaymentAmount,
    /// Every draw handed in fell on a reward held back by a cooldown; the
    /// contract keeps drawing until one does not.
    DrawsExhausted,
    /// The box paid has a nonce that no box was minted with; the virtual
    /// machine refuses the transfer of such a token.
    UnknownBoxNonce,
    /// A number would exceed its width; the virtual machine fails such a transaction.
    ArithmeticOverflow,
}

impl Reward {
    pub fn new(
        reward_type: RewardType,
        reward_token_id: Vec<u8>,
        value: u128,
        description: Vec<u8>,
        percentage_chance: u64,
        epochs_cooldown: u64,
    ) -> (r: Self)
        ensures
            r@ == (RewardView {
                reward_type,
                reward_token_id: reward_token_id@,
                value,
                description: description@,
                percentage_chance,
                epochs_cooldown,
            }),
    {
        Reward { reward_type, reward_token_id, value, description, percentage_chance, epochs_cooldown }
    }

    /// A copy of the reward.
    pub fn duplicate(&self) -> (r: Self)
        ensures
            r@ == self@,
    {
        Reward {
            reward_type: self.reward_type,
            reward_token_id: self.reward_token_id.clone(),
            value: self.value,
            description: self.description.clone(),
            percentage_chance: self.percentage_chance,
            epochs_cooldown: self.epochs_cooldown,
        }
    }
}

impl Default for Reward {
    fn default() -> (r: Self)
        ensures
            r@ == no_reward(),
    {
        Reward {
            reward_type: RewardType::NoReward,
            reward_token_id: crate::common::egld_token_name(),
            value: 0,
            description: Vec::new(),
            percentage_chance: 0,
            epochs_cooldown: 0,
        }
    }
}

/// A copy of a list of rewards.
pub fn duplicate_rewards(v: &Vec<Reward>) -> (r: Vec<Reward>)
    ensures
        rewards_view(r@) == rewards_view(v@),
{
    let mut r: Vec<Reward> = Vec::new();
    let mut i: usize = 0;
    while i < v.len()
        invariant
            i <= v.len(),
            r@.len() == i,
            forall|j: int| 0 <= j < i ==> r@[j]@ == v@[j]@,
        decreases v.len() - i,
    {
        r.push(v[i].duplicate());
        i = i + 1;
    }
    assert(rewards_view(r@) =~= rewards_view(v@));
    r
}

} // verus!
