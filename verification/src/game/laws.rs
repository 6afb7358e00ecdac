//! Properties of the wager game that span its operations.
use vstd::prelude::*;
use crate::common::{Address, PaymentView, PayoutView, TransferView, TxContext};
use crate::unordered_set::{insert_value, remove_value};
use super::contract::{
    claim_back_wager_outcome, game_state_wf, games_of_user, join_game_outcome, players_of,
    rewards, settings_of, GameState, DENOM,
};
use super::types::GameError;

verus! {

/// The total of the amounts of `ts`.
pub open spec fn total_paid(ts: Seq<PayoutView>) -> int
    decreases ts.len(),
{
    if ts.len() == 0 {
        0
    } else {
        total_paid(ts.drop_last()) + ts.last().payment.amount
    }
}

/// The total of the winners' percentages.
pub open spec fn total_share(winners: Seq<(Address, u64)>) -> int
    decreases winners.len(),
{
    if winners.len() == 0 {
        0
    } else {
        total_share(winners.drop_last()) + winners.last().1
    }
}

/// The winners are paid at most their shares of the pot: all together, at
/// most the total of their percentages of it. So when the percentages add
/// up to at most 100%, the pot covers every reward.
pub proof fn lemma_rewards_within_pot(winners: Seq<(Address, u64)>, token: Seq<u8>, total: nat)
    ensures
        total_paid(rewards(winners, token, total)) * DENOM <= total_share(winners) * total,
        total_share(winners) <= DENOM ==> total_paid(rewards(winners, token, total)) <= total,
    decreases winners.len(),
{
    let ts = rewards(winners, token, total);
    if winners.len() > 0 {
        let p = winners.drop_last();
        lemma_rewards_within_pot(p, token, total);
        let (w, pct) = winners.last();
        let x = pct * total;
        assert((x / 10000) * 10000 <= x) by (nonlinear_arith)
            requires
                x >= 0,
        ;
        assert(ts.drop_last() == rewards(p, token, total));
        assert(ts.last().payment.amount == x / 10000);
        let sp = total_share(p);
        assert(sp * total + pct * total == (sp + pct) * total) by (nonlinear_arith);
    }
    let tp = total_paid(ts);
    let sh = total_share(winners);
    if sh <= DENOM {
        assert(tp * 10000 <= sh * total);
        assert(sh * total <= 10000 * total) by (nonlinear_arith)
            requires
                sh <= 10000,
                total >= 0,
        ;
        assert(tp <= total) by (nonlinear_arith)
            requires
                tp * 10000 <= 10000 * total,
        ;
    }
}

/// A user who joined a game cannot join it a second time.
pub proof fn lemma_no_double_join(
    s: GameState,
    ctx: TxContext,
    payments: Seq<PaymentView>,
    game_id: u64,
)
    requires
        join_game_outcome(s, ctx, payments, game_id) is Ok,
    ensures
        join_game_outcome(join_game_outcome(s, ctx, payments, game_id)->Ok_0, ctx, payments, game_id)
            == Err::<GameState, GameError>(GameError::UserAlreadyJoined),
{
    let t = join_game_outcome(s, ctx, payments, game_id)->Ok_0;
    let g = games_of_user(s, ctx.caller);
    assert(insert_value(g, game_id).contains(game_id)) by {
        if !g.contains(game_id) {
            assert(g.push(game_id)[g.len() as int] == game_id);
        }
    }
    assert(games_of_user(t, ctx.caller).contains(game_id));
}

/// Joining never takes a game past its maximum number of players.
pub proof fn lemma_join_respects_max_players(
    s: GameState,
    ctx: TxContext,
    payments: Seq<PaymentView>,
    game_id: u64,
)
    requires
        game_state_wf(s),
        join_game_outcome(s, ctx, payments, game_id) is Ok,
    ensures
        players_of(join_game_outcome(s, ctx, payments, game_id)->Ok_0, game_id).len()
            <= settings_of(s, game_id)->Some_0.number_of_players_max,
{
}

/// A player who took its wager back has left the game, and cannot take the
/// wager back a second time.
pub proof fn lemma_no_double_claim(s: GameState, ctx: TxContext, game_id: u64)
    requires
        game_state_wf(s),
        claim_back_wager_outcome(s, ctx, game_id) is Ok,
    ensures
        !games_of_user(claim_back_wager_outcome(s, ctx, game_id)->Ok_0.0, ctx.caller).contains(
            game_id,
        ),
        claim_back_wager_outcome(claim_back_wager_outcome(s, ctx, game_id)->Ok_0.0, ctx, game_id)
            is Err,
{
    let g = games_of_user(s, ctx.caller);
    assert(s.games_per_user.contains_key(ctx.caller));
    assert(g.no_duplicates());
    let k = g.index_of(game_id);
    let r = remove_value(g, game_id);
    assert(!r.contains(game_id)) by {
        if r.contains(game_id) {
            let j = r.index_of(game_id);
            if j == k {
                assert(r[j] == g.last());
                assert(g[g.len() - 1] == game_id);
            } else {
                assert(r[j] == g[j]);
            }
        }
    }
}

} // verus!
