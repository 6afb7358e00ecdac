//! Properties of the mystery box that span its operations.
use vstd::prelude::*;
use crate::common::{Address, PaymentView, TxContext};
use super::config::{RewardType, RewardView, MAX_PERCENTAGE};
use super::contract::{
    attribute_nonces_wf, attributes_of, in_cooldown, lemma_nonce_of_entry, mint_outcome, mystery_box_wf, nonce_of,
    open_outcome, setup_outcome, setup_scan, type_index, MysteryBoxState, REWARD_TYPES,
};
use super::rewards::{pick_reward, winning_reward};

verus! {

/// The total of the chances of `list`.
pub open spec fn total_chance(list: Seq<RewardView>) -> int
    decreases list.len(),
{
    if list.len() == 0 {
        0
    } else {
        total_chance(list.drop_last()) + list.last().percentage_chance
    }
}

proof fn lemma_total_chance_front(list: Seq<RewardView>)
    requires
        list.len() > 0,
    ensures
        total_chance(list) == list[0].percentage_chance + total_chance(list.drop_first()),
    decreases list.len(),
{
    if list.len() > 1 {
        lemma_total_chance_front(list.drop_last());
        assert(list.drop_last().drop_first() =~= list.drop_first().drop_last());
    } else {
        assert(list.drop_first() =~= Seq::<RewardView>::empty());
        assert(list.drop_last() =~= Seq::<RewardView>::empty());
    }
}

proof fn lemma_setup_scan_total(list: Seq<RewardView>, token: Seq<u8>)
    requires
        setup_scan(list, token) is Ok,
    ensures
        setup_scan(list, token) == Ok::<int, super::config::MysteryBoxError>(total_chance(list)),
    decreases list.len(),
{
    if list.len() > 0 {
        lemma_setup_scan_total(list.drop_last(), token);
    }
}

/// A box that was set up holds rewards whose chances add up to exactly 100%.
pub proof fn lemma_setup_totals_100_percent(
    s: MysteryBoxState,
    caller: Address,
    list: Seq<RewardView>,
)
    requires
        setup_outcome(s, caller, list) is Ok,
    ensures
        total_chance(setup_outcome(s, caller, list)->Ok_0.winning_rates) == MAX_PERCENTAGE,
{
    lemma_setup_scan_total(list, s.mystery_box_token_id);
}

proof fn lemma_pick_reward_in_list(list: Seq<RewardView>, n: int, acc: int)
    requires
        acc < n <= acc + total_chance(list),
    ensures
        list.contains(pick_reward(list, n, acc)),
    decreases list.len(),
{
    if list.len() == 0 {
    } else {
        lemma_total_chance_front(list);
        if n <= acc + list[0].percentage_chance {
            assert(list[0] == pick_reward(list, n, acc));
        } else {
            let rest = list.drop_first();
            lemma_pick_reward_in_list(rest, n, acc + list[0].percentage_chance);
            let x = pick_reward(rest, n, acc + list[0].percentage_chance);
            let k = rest.index_of(x);
            assert(list[k + 1] == x);
        }
    }
}

/// When the chances add up to 100%, every draw from 1 to 100% wins one of
/// the listed rewards, never the empty one.
pub proof fn lemma_draw_wins_listed_reward(list: Seq<RewardView>, n: u64)
    requires
        total_chance(list) == MAX_PERCENTAGE,
        1 <= n <= MAX_PERCENTAGE,
    ensures
        list.contains(winning_reward(list, n)),
{
    lemma_pick_reward_in_list(list, n as int, 0);
}

/// Boxes minted with the same attributes share a nonce: minting them again
/// creates no new nonce and changes nothing.
pub proof fn lemma_same_attributes_share_nonce(
    s: MysteryBoxState,
    amount: u128,
    again: u128,
    attributes: Seq<RewardView>,
)
    requires
        mint_outcome(s, amount, attributes) is Ok,
    ensures
        ({
            let (t, m) = mint_outcome(s, amount, attributes)->Ok_0;
            &&& mint_outcome(t, again, attributes) is Ok
            &&& mint_outcome(t, again, attributes)->Ok_0.0 == t
            &&& mint_outcome(t, again, attributes)->Ok_0.1.created is None
            &&& mint_outcome(t, again, attributes)->Ok_0.1.payment.token_nonce == m.payment.token_nonce
        }),
{
}

/// Once a box was opened on a reward with a cooldown, every reward of the
/// same kind with a cooldown is held back until that cooldown is over.
pub proof fn lemma_cooldown_holds_back_kind(
    s: MysteryBoxState,
    ctx: TxContext,
    payments: Seq<PaymentView>,
    attributes: Seq<RewardView>,
    draws: Seq<u64>,
    later: u64,
    other: RewardView,
)
    requires
        mystery_box_wf(s),
        open_outcome(s, ctx, payments, attributes, draws) is Ok,
        open_outcome(s, ctx, payments, attributes, draws)->Ok_0.1.epochs_cooldown != 0,
        other.reward_type == open_outcome(s, ctx, payments, attributes, draws)->Ok_0.1.reward_type,
        other.epochs_cooldown != 0,
        later < ctx.block_epoch + open_outcome(s, ctx, payments, attributes, draws)->Ok_0.1.epochs_cooldown,
    ensures
        in_cooldown(open_outcome(s, ctx, payments, attributes, draws)->Ok_0.0, later, other),
{
}


/// The storage after minting, one after the other, boxes for each of
/// `mints` (an amount and attributes each), or `None` once a mint fails.
pub open spec fn mint_all(s: MysteryBoxState, mints: Seq<(u128, Seq<RewardView>)>) -> Option<MysteryBoxState>
    decreases mints.len(),
{
    if mints.len() == 0 {
        Some(s)
    } else {
        match mint_all(s, mints.drop_last()) {
            None => None,
            Some(t) => match mint_outcome(t, mints.last().0, mints.last().1) {
                Ok((u, _)) => Some(u),
                Err(_) => None,
            },
        }
    }
}

/// A mint keeps the nonce tables consistent, and keeps the nonce of every
/// list of attributes that already had one.
pub proof fn lemma_mint_keeps_nonces(s: MysteryBoxState, amount: u128, attributes: Seq<RewardView>, other: Seq<RewardView>)
    requires
        attribute_nonces_wf(s.nonce_by_attributes, s.last_nonce),
        mint_outcome(s, amount, attributes) is Ok,
    ensures
        ({
            let t = mint_outcome(s, amount, attributes)->Ok_0.0;
            &&& attribute_nonces_wf(t.nonce_by_attributes, t.last_nonce)
            &&& nonce_of(t.nonce_by_attributes, attributes) == mint_outcome(s, amount, attributes)->Ok_0.1.payment.token_nonce
            &&& nonce_of(s.nonce_by_attributes, other) != 0 ==> nonce_of(t.nonce_by_attributes, other)
                == nonce_of(s.nonce_by_attributes, other)
        }),
{
    let t = mint_outcome(s, amount, attributes)->Ok_0.0;
    let list = t.nonce_by_attributes;
    if nonce_of(s.nonce_by_attributes, attributes) == 0 {
        let old_list = s.nonce_by_attributes;
        assert(list == old_list.push((attributes, t.last_nonce)));
        assert(list.drop_last() =~= old_list);
        assert forall|i: int| 0 <= i < list.len() implies 1 <= #[trigger] list[i].1 <= t.last_nonce by {
            if i < old_list.len() {
                assert(list[i] == old_list[i]);
            }
        }
        assert forall|i: int, j: int| 0 <= i < j < list.len() implies #[trigger] list[i].1
            != #[trigger] list[j].1 by {
            assert(list[i] == old_list[i]);
            if j < old_list.len() {
                assert(list[j] == old_list[j]);
            }
        }
        if nonce_of(old_list, other) != 0 {
            lemma_nonce_of_entry(old_list, other);
            assert(other != attributes);
        }
    }
}

/// Minting gives the same nonce exactly to the same attributes: once boxes
/// with attributes `first` were minted, boxes minted later with attributes
/// `second`, after any mints in between (`between`), get the same nonce if
/// and only if `second` equals `first`.
pub proof fn lemma_nonce_identifies_attributes(
    s: MysteryBoxState,
    amount: u128,
    first: Seq<RewardView>,
    between: Seq<(u128, Seq<RewardView>)>,
    again: u128,
    second: Seq<RewardView>,
)
    requires
        mystery_box_wf(s),
        mint_outcome(s, amount, first) is Ok,
        mint_all(mint_outcome(s, amount, first)->Ok_0.0, between) is Some,
        mint_outcome(mint_all(mint_outcome(s, amount, first)->Ok_0.0, between)->Some_0, again, second) is Ok,
    ensures
        ({
            let m = mint_outcome(s, amount, first)->Ok_0.1;
            let u = mint_all(mint_outcome(s, amount, first)->Ok_0.0, between)->Some_0;
            let n = mint_outcome(u, again, second)->Ok_0.1;
            n.payment.token_nonce == m.payment.token_nonce <==> second == first
        }),
{
    let (t, m) = mint_outcome(s, amount, first)->Ok_0;
    lemma_mint_keeps_nonces(s, amount, first, first);
    lemma_mint_all_keeps_nonces(t, between, first);
    let u = mint_all(t, between)->Some_0;
    let list = u.nonce_by_attributes;
    let n = mint_outcome(u, again, second)->Ok_0.1;
    lemma_nonce_of_entry(list, first);
    let i = choose|i: int| 0 <= i < list.len() && #[trigger] list[i] == (first, nonce_of(list, first));
    if second != first && nonce_of(list, second) != 0 {
        lemma_nonce_of_entry(list, second);
        let j = choose|j: int| 0 <= j < list.len() && #[trigger] list[j] == (second, nonce_of(list, second));
        assert(i != j);
        if i < j {
            assert(list[i].1 != list[j].1);
        } else {
            assert(list[j].1 != list[i].1);
        }
    }
}

/// Mints one after the other keep the nonce tables consistent and the
/// nonce of attributes that already had one.
pub proof fn lemma_mint_all_keeps_nonces(s: MysteryBoxState, mints: Seq<(u128, Seq<RewardView>)>, attributes: Seq<RewardView>)
    requires
        attribute_nonces_wf(s.nonce_by_attributes, s.last_nonce),
        nonce_of(s.nonce_by_attributes, attributes) != 0,
        mint_all(s, mints) is Some,
    ensures
        attribute_nonces_wf(mint_all(s, mints)->Some_0.nonce_by_attributes, mint_all(s, mints)->Some_0.last_nonce),
        nonce_of(mint_all(s, mints)->Some_0.nonce_by_attributes, attributes) == nonce_of(s.nonce_by_attributes, attributes),
    decreases mints.len(),
{
    if mints.len() > 0 {
        lemma_mint_all_keeps_nonces(s, mints.drop_last(), attributes);
        let t = mint_all(s, mints.drop_last())->Some_0;
        lemma_mint_keeps_nonces(t, mints.last().0, mints.last().1, attributes);
    }
}

/// A box opens on the rewards it was minted with: the nonce minted for
/// `attributes` leads back to exactly those attributes.
pub proof fn lemma_nonce_leads_back_to_attributes(
    list: Seq<(Seq<RewardView>, u64)>,
    last_nonce: u64,
    attributes: Seq<RewardView>,
)
    requires
        attribute_nonces_wf(list, last_nonce),
        nonce_of(list, attributes) != 0,
    ensures
        attributes_of(list, nonce_of(list, attributes)) == Some(attributes),
    decreases list.len(),
{
    if list.last().0 != attributes {
        let p = list.drop_last();
        assert forall|i: int, j: int| 0 <= i < j < p.len() implies #[trigger] p[i].1 != #[trigger] p[j].1 by {
            assert(list[i].1 != list[j].1);
        }
        assert forall|i: int| 0 <= i < p.len() implies 1 <= #[trigger] p[i].1 <= last_nonce by {
            assert(list[i] == p[i]);
        }
        lemma_nonce_of_entry(p, attributes);
        let i = choose|i: int| 0 <= i < p.len() && #[trigger] p[i] == (attributes, nonce_of(p, attributes));
        assert(list[i] == p[i]);
        assert(list[i].1 != list[list.len() - 1].1);
        lemma_nonce_leads_back_to_attributes(p, last_nonce, attributes);
    }
}


/// Distinct kinds of reward have distinct cooldown slots.
pub proof fn lemma_type_index_injective(a: RewardType, b: RewardType)
    ensures
        type_index(a) == type_index(b) ==> a == b,
        0 <= type_index(a) < REWARD_TYPES,
{
}

/// Opening a box holds back only the kind of the reward won: the cooldown
/// of every other kind is left as it was.
pub proof fn lemma_open_keeps_other_kinds(
    s: MysteryBoxState,
    ctx: TxContext,
    payments: Seq<PaymentView>,
    attributes: Seq<RewardView>,
    draws: Seq<u64>,
    other: RewardType,
)
    requires
        mystery_box_wf(s),
        open_outcome(s, ctx, payments, attributes, draws) is Ok,
        other != open_outcome(s, ctx, payments, attributes, draws)->Ok_0.1.reward_type,
    ensures
        open_outcome(s, ctx, payments, attributes, draws)->Ok_0.0.global_cooldown_epoch[type_index(other)]
            == s.global_cooldown_epoch[type_index(other)],
{
    lemma_type_index_injective(other, open_outcome(s, ctx, payments, attributes, draws)->Ok_0.1.reward_type);
}

} // verus!
