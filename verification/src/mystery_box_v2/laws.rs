//! Properties of the second mystery box that span its operations.
use vstd::prelude::*;
use crate::mystery_box::config::{MysteryBoxError, MAX_PERCENTAGE};
use super::config::{CooldownType, RewardCooldown, RewardView};
use super::rewards::{cooldown_after, pick_reward, winning_reward};
use super::contract::{
    attribute_nonces_wf, attributes_of, lemma_nonce_of_entry, mint_outcome, mystery_box_v2_wf, nonce_of,
    MysteryBoxV2State,
};

verus! {

/// The total of the chances of `list`.
pub open spec fn total_chance(list: Seq<RewardView>) -> int
    decreases list.len(),
{
    if list.len() == 0 {
        0
    } else {
        list[0].percentage_chance + total_chance(list.drop_first())
    }
}

proof fn lemma_pick_reward_in_list(list: Seq<RewardView>, n: int, acc: int)
    requires
        acc < n <= acc + total_chance(list),
    ensures
        list.contains(pick_reward(list, n, acc)),
    decreases list.len(),
{
    if list.len() > 0 {
        if n <= acc + list[0].percentage_chance {
            assert(list[0] == pick_reward(list, n, acc));
        } else {
            let rest = list.drop_first();
            lemma_pick_reward_in_list(rest, n, acc + list[0].percentage_chance);
            let x = pick_reward(rest, n, acc + list[0].percentage_chance);
            let k = rest.index_of(x);
            assert(list[k + 1] == x);
        }
    }
}

/// When the chances add up to 100%, every draw from 1 to 100% falls on one
/// of the listed rewards, never the empty one.
pub proof fn lemma_draw_wins_listed_reward(list: Seq<RewardView>, n: u64)
    requires
        total_chance(list) == MAX_PERCENTAGE,
        1 <= n <= MAX_PERCENTAGE,
    ensures
        list.contains(winning_reward(list, n)),
{
    lemma_pick_reward_in_list(list, n as int, 0);
}

/// A reward with a lifetime cooldown is won only while wins are left, and
/// each win uses one up: it can never be won more times than it had wins.
pub proof fn lemma_lifetime_cooldown_counts_down(c: RewardCooldown, epoch: u64)
    requires
        c.cooldown_type == CooldownType::Lifetime,
    ensures
        cooldown_after(c, epoch) is Ok,
        c.remaining_epoch_wins > 0 ==> cooldown_after(c, epoch) == Ok::<
            (RewardCooldown, bool),
            MysteryBoxError,
        >((RewardCooldown { remaining_epoch_wins: (c.remaining_epoch_wins - 1) as u64, ..c }, false)),
        c.remaining_epoch_wins == 0 ==> cooldown_after(c, epoch) == Ok::<
            (RewardCooldown, bool),
            MysteryBoxError,
        >((c, true)),
{
}

/// Once the period of a resettable cooldown is over, the reward can be won
/// again: a new period starts in that epoch with all its wins, one of which
/// is used up.
pub proof fn lemma_reset_cooldown_refills(c: RewardCooldown, epoch: u64)
    requires
        c.cooldown_type == CooldownType::ResetOnCooldown,
        c.wins_per_cooldown > 0,
        c.last_update_epoch + c.cooldown_epochs <= epoch,
    ensures
        cooldown_after(c, epoch) == Ok::<(RewardCooldown, bool), MysteryBoxError>(
            (
                RewardCooldown {
                    last_update_epoch: epoch,
                    remaining_epoch_wins: (c.wins_per_cooldown - 1) as u64,
                    ..c
                },
                false,
            ),
        ),
{
}

/// A reward with no cooldown is never held back and its cooldown never changes.
pub proof fn lemma_no_cooldown_never_holds_back(c: RewardCooldown, epoch: u64)
    requires
        c.cooldown_type == CooldownType::NoCooldown,
    ensures
        cooldown_after(c, epoch) == Ok::<(RewardCooldown, bool), MysteryBoxError>((c, false)),
{
}


/// The storage after minting, one after the other, boxes for each of
/// `mints` (an amount and attributes each), or `None` once a mint fails.
pub open spec fn mint_all(s: MysteryBoxV2State, mints: Seq<(u128, Seq<RewardView>)>) -> Option<MysteryBoxV2State>
    decreases mints.len(),
{
    if mints.len() == 0 {
        Some(s)
    } else {
        match mint_all(s, mints.drop_last()) {
            None => None,
            Some(t) => match mint_outcome(t, mints.last().0, mints.last().1) {
                Ok((u, _)) => Some(u),
                Err(_) => None,
            },
        }
    }
}

/// A mint keeps the nonce tables consistent, and keeps the nonce of every
/// list of attributes that already had one.
pub proof fn lemma_mint_keeps_nonces(s: MysteryBoxV2State, amount: u128, attributes: Seq<RewardView>, other: Seq<RewardView>)
    requires
        attribute_nonces_wf(s.nonce_by_attributes, s.last_nonce),
        mint_outcome(s, amount, attributes) is Ok,
    ensures
        ({
            let t = mint_outcome(s, amount, attributes)->Ok_0.0;
            &&& attribute_nonces_wf(t.nonce_by_attributes, t.last_nonce)
            &&& nonce_of(t.nonce_by_attributes, attributes) == mint_outcome(s, amount, attributes)->Ok_0.1.payment.token_nonce
            &&& nonce_of(s.nonce_by_attributes, other) != 0 ==> nonce_of(t.nonce_by_attributes, other)
                == nonce_of(s.nonce_by_attributes, other)
        }),
{
    let t = mint_outcome(s, amount, attributes)->Ok_0.0;
    let list = t.nonce_by_attributes;
    if nonce_of(s.nonce_by_attributes, attributes) == 0 {
        let old_list = s.nonce_by_attributes;
        assert(list == old_list.push((attributes, t.last_nonce)));
        assert(list.drop_last() =~= old_list);
        assert forall|i: int| 0 <= i < list.len() implies 1 <= #[trigger] list[i].1 <= t.last_nonce by {
            if i < old_list.len() {
                assert(list[i] == old_list[i]);
            }
        }
        assert forall|i: int, j: int| 0 <= i < j < list.len() implies #[trigger] list[i].1
            != #[trigger] list[j].1 by {
            assert(list[i] == old_list[i]);
            if j < old_list.len() {
                assert(list[j] == old_list[j]);
            }
        }
        if nonce_of(old_list, other) != 0 {
            lemma_nonce_of_entry(old_list, other);
            assert(other != attributes);
        }
    }
}

/// Minting gives the same nonce exactly to the same attributes: once boxes
/// with attributes `first` were minted, boxes minted later with attributes
/// `second`, after any mints in between (`between`), get the same nonce if
/// and only if `second` equals `first`.
pub proof fn lemma_nonce_identifies_attributes(
    s: MysteryBoxV2State,
    amount: u128,
    first: Seq<RewardView>,
    between: Seq<(u128, Seq<RewardView>)>,
    again: u128,
    second: Seq<RewardView>,
)
    requires
        mystery_box_v2_wf(s),
        mint_outcome(s, amount, first) is Ok,
        mint_all(mint_outcome(s, amount, first)->Ok_0.0, between) is Some,
        mint_outcome(mint_all(mint_outcome(s, amount, first)->Ok_0.0, between)->Some_0, again, second) is Ok,
    ensures
        ({
            let m = mint_outcome(s, amount, first)->Ok_0.1;
            let u = mint_all(mint_outcome(s, amount, first)->Ok_0.0, between)->Some_0;
            let n = mint_outcome(u, again, second)->Ok_0.1;
            n.payment.token_nonce == m.payment.token_nonce <==> second == first
        }),
{
    let (t, m) = mint_outcome(s, amount, first)->Ok_0;
    lemma_mint_keeps_nonces(s, amount, first, first);
    lemma_mint_all_keeps_nonces(t, between, first);
    let u = mint_all(t, between)->Some_0;
    let list = u.nonce_by_attributes;
    let n = mint_outcome(u, again, second)->Ok_0.1;
    lemma_nonce_of_entry(list, first);
    let i = choose|i: int| 0 <= i < list.len() && #[trigger] list[i] == (first, nonce_of(list, first));
    if second != first && nonce_of(list, second) != 0 {
        lemma_nonce_of_entry(list, second);
        let j = choose|j: int| 0 <= j < list.len() && #[trigger] list[j] == (second, nonce_of(list, second));
        assert(i != j);
        if i < j {
            assert(list[i].1 != list[j].1);
        } else {
            assert(list[j].1 != list[i].1);
        }
    }
}

/// Mints one after the other keep the nonce tables consistent and the
/// nonce of attributes that already had one.
pub proof fn lemma_mint_all_keeps_nonces(s: MysteryBoxV2State, mints: Seq<(u128, Seq<RewardView>)>, attributes: Seq<RewardView>)
    requires
        attribute_nonces_wf(s.nonce_by_attributes, s.last_nonce),
        nonce_of(s.nonce_by_attributes, attributes) != 0,
        mint_all(s, mints) is Some,
    ensures
        attribute_nonces_wf(mint_all(s, mints)->Some_0.nonce_by_attributes, mint_all(s, mints)->Some_0.last_nonce),
        nonce_of(mint_all(s, mints)->Some_0.nonce_by_attributes, attributes) == nonce_of(s.nonce_by_attributes, attributes),
    decreases mints.len(),
{
    if mints.len() > 0 {
        lemma_mint_all_keeps_nonces(s, mints.drop_last(), attributes);
        let t = mint_all(s, mints.drop_last())->Some_0;
        lemma_mint_keeps_nonces(t, mints.last().0, mints.last().1, attributes);
    }
}

/// A box opens on the rewards it was minted with: the nonce minted for
/// `attributes` leads back to exactly those attributes.
pub proof fn lemma_nonce_leads_back_to_attributes(
    list: Seq<(Seq<RewardView>, u64)>,
    last_nonce: u64,
    attributes: Seq<RewardView>,
)
    requires
        attribute_nonces_wf(list, last_nonce),
        nonce_of(list, attributes) != 0,
    ensures
        attributes_of(list, nonce_of(list, attributes)) == Some(attributes),
    decreases list.len(),
{
    if list.last().0 != attributes {
        let p = list.drop_last();
        assert forall|i: int, j: int| 0 <= i < j < p.len() implies #[trigger] p[i].1 != #[trigger] p[j].1 by {
            assert(list[i].1 != list[j].1);
        }
        assert forall|i: int| 0 <= i < p.len() implies 1 <= #[trigger] p[i].1 <= last_nonce by {
            assert(list[i] == p[i]);
        }
        lemma_nonce_of_entry(p, attributes);
        let i = choose|i: int| 0 <= i < p.len() && #[trigger] p[i] == (attributes, nonce_of(p, attributes));
        assert(list[i] == p[i]);
        assert(list[i].1 != list[list.len() - 1].1);
        lemma_nonce_leads_back_to_attributes(p, last_nonce, attributes);
    }
}


/// Within the period of a resettable cooldown no wins are refilled: the
/// reward is held back once the period's wins are used up, with nothing
/// changed, and while wins are left one is used up and the period keeps
/// its start.
pub proof fn lemma_reset_cooldown_within_period(c: RewardCooldown, epoch: u64)
    requires
        c.cooldown_type == CooldownType::ResetOnCooldown,
        c.last_update_epoch + c.cooldown_epochs <= u64::MAX,
        epoch < c.last_update_epoch + c.cooldown_epochs,
    ensures
        c.remaining_epoch_wins == 0 ==> cooldown_after(c, epoch) == Ok::<(RewardCooldown, bool), MysteryBoxError>((c, true)),
        c.remaining_epoch_wins > 0 ==> cooldown_after(c, epoch) is Ok
            && cooldown_after(c, epoch)->Ok_0.1 == false
            && cooldown_after(c, epoch)->Ok_0.0.remaining_epoch_wins == c.remaining_epoch_wins - 1
            && cooldown_after(c, epoch)->Ok_0.0.last_update_epoch == c.last_update_epoch,
{
}

/// A resettable cooldown lets its reward be won at most `wins_per_cooldown`
/// times in one period: after `k` wins in epochs before the period's end,
/// `wins - k` are left.
pub proof fn lemma_reset_cooldown_bounds_wins(c: RewardCooldown, epoch: u64)
    requires
        c.cooldown_type == CooldownType::ResetOnCooldown,
        c.last_update_epoch + c.cooldown_epochs <= u64::MAX,
        epoch < c.last_update_epoch + c.cooldown_epochs,
        cooldown_after(c, epoch) is Ok,
        cooldown_after(c, epoch)->Ok_0.1 == false,
    ensures
        cooldown_after(c, epoch)->Ok_0.0.remaining_epoch_wins < c.remaining_epoch_wins,
{
}

} // verus!
