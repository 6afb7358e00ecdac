//! Properties of the multisig wallet that span its operations.
use vstd::prelude::*;
use crate::unordered_set::{insert_value, remove_value, swap_removed};
use super::action::{ActionId, ActionStatus};
use super::check_signature::check_all;
use super::discard::discard_outcome;
use super::error::MultisigError;
use super::perform::perform_outcome;
use super::propose::propose_outcome;
use super::sign::{sign_outcome, with_signatures, without_signer};
use super::signature::{ActionType, SignatureArg};
use super::state::{
    group_of, group_status_of, in_actions, insert_all, lemma_index_of_pushed, pending, role_of,
    role_of_id, signers_of, tables_wf, user_id, valid_signer_count, MultisigState,
};
use super::user_role::{role_can_sign, UserRole};
use crate::common::Address;

verus! {

/// A performed action is gone: it is no longer pending and keeps no
/// signature, so it can never run twice.
pub proof fn lemma_performed_action_is_gone(s: MultisigState, id: ActionId)
    requires
        tables_wf(s),
        perform_outcome(s, id) is Ok,
    ensures
        !pending(perform_outcome(s, id)->Ok_0, id as int),
        signers_of(perform_outcome(s, id)->Ok_0, id) == Seq::<u64>::empty(),
{
}

/// No action of an aborted batch can be signed or performed any more.
pub proof fn lemma_aborted_batch_is_frozen(
    s: MultisigState,
    id: ActionId,
    sigs: Seq<SignatureArg>,
    verdicts: Seq<bool>,
)
    requires
        group_of(s, id) != 0,
        group_status_of(s, group_of(s, id)) == ActionStatus::Aborted,
    ensures
        perform_outcome(s, id) is Err,
        sign_outcome(s, id, sigs, verdicts) is Err,
{
}

/// An action can be discarded exactly when none of its signers may still
/// sign; anyone may discard it then.
pub proof fn lemma_discard_needs_no_valid_signer(s: MultisigState, id: ActionId)
    ensures
        discard_outcome(s, id) is Ok <==> valid_signer_count(s, signers_of(s, id)) == 0,
        discard_outcome(s, id) is Err ==> discard_outcome(s, id) == Err::<
            MultisigState,
            MultisigError,
        >(MultisigError::CannotDiscardSignedAction),
{
}

/// A board member who signs an action with one signature and then withdraws
/// its signature leaves the action's signers as they were; only its nonce
/// stays used up.
pub proof fn lemma_sign_then_unsign_restores_signers(
    s: MultisigState,
    id: ActionId,
    sig: SignatureArg,
    verified: bool,
)
    requires
        tables_wf(s),
        sign_outcome(s, id, seq![sig], seq![verified]) is Ok,
        !signers_of(s, id).contains(user_id(s, sig.user_address)),
    ensures
        ({
            let t = sign_outcome(s, id, seq![sig], seq![verified])->Ok_0;
            without_signer(t, id as int, user_id(s, sig.user_address)) == (MultisigState {
                nonces: t.nonces,
                ..s
            })
        }),
{
    let u = user_id(s, sig.user_address);
    assert(seq![sig].drop_last() =~= Seq::<SignatureArg>::empty());
    assert(seq![verified].drop_last() =~= Seq::<bool>::empty());
    assert(check_all(s, s.nonces, Seq::empty(), Seq::empty(), ActionType::SimpleAction) == Ok::<
        (Seq<u64>, Seq<u64>),
        MultisigError,
    >((Seq::empty(), s.nonces)));
    let (ids, ns) = check_all(s, s.nonces, seq![sig], seq![verified], ActionType::SimpleAction)->Ok_0;
    assert(ids =~= seq![u]);
    assert(ids.drop_last() =~= Seq::<u64>::empty());
    let old_signers = s.signers[id - 1];
    assert(insert_all(old_signers, Seq::empty()) == old_signers);
    assert(insert_all(old_signers, ids) == insert_value(old_signers, u));
    lemma_index_of_pushed(old_signers, u);
    let pushed = old_signers.push(u);
    assert(swap_removed(pushed, pushed.index_of(u)) =~= old_signers);
    assert(remove_value(insert_value(old_signers, u), u) == old_signers);
    let t = sign_outcome(s, id, seq![sig], seq![verified])->Ok_0;
    let w = without_signer(t, id as int, u);
    assert(w.signers =~= s.signers);
}

/// A proposer that may sign signs its own proposal, and is its only signer.
pub proof fn lemma_proposer_signs_own_proposal(
    s: MultisigState,
    caller: Address,
    a: super::action::ActionModel,
)
    requires
        tables_wf(s),
        propose_outcome(s, caller, a, None, false) is Ok,
        role_can_sign(role_of(s, caller)),
    ensures
        ({
            let (t, id) = propose_outcome(s, caller, a, None, false)->Ok_0;
            &&& pending(t, id as int) || a is Nothing
            &&& signers_of(t, id) == seq![user_id(s, caller)]
        }),
{
}


/// A discarded action can no longer be signed: whatever signatures come in,
/// signing it fails with "action does not exist" and changes nothing.
pub proof fn lemma_discarded_action_cannot_be_signed(
    s: MultisigState,
    id: ActionId,
    sigs: Seq<SignatureArg>,
    verdicts: Seq<bool>,
)
    requires
        tables_wf(s),
        in_actions(s, id),
        discard_outcome(s, id) is Ok,
    ensures
        sign_outcome(discard_outcome(s, id)->Ok_0, id, sigs, verdicts) == Err::<MultisigState, MultisigError>(
            MultisigError::ActionDoesNotExist,
        ),
{
}


/// The valid signers of an action are exactly its signers that are board
/// members now: signers that were removed or became proposers do not count.
pub proof fn lemma_valid_signers_are_board_members(s: MultisigState, ids: Seq<u64>)
    ensures
        valid_signer_count(s, ids) == ids.filter(|u: u64| role_of_id(s, u) == UserRole::BoardMember).len(),
    decreases ids.len(),
{
    let p = |u: u64| role_of_id(s, u) == UserRole::BoardMember;
    if ids.len() > 0 {
        let q = ids.drop_last();
        lemma_valid_signers_are_board_members(s, q);
        q.lemma_filter_push(ids.last(), p);
        assert(q.push(ids.last()) =~= ids);
    } else {
        assert(ids.filter(p) =~= Seq::<u64>::empty()) by {
            ids.lemma_filter_len(p);
        }
    }
}

/// A signer who may not sign adds nothing to the count of valid signers,
/// and one who may adds one.
pub proof fn lemma_valid_signer_added(s: MultisigState, ids: Seq<u64>, u: u64)
    ensures
        role_of_id(s, u) != UserRole::BoardMember ==> valid_signer_count(s, ids.push(u)) == valid_signer_count(s, ids),
        role_of_id(s, u) == UserRole::BoardMember ==> valid_signer_count(s, ids.push(u)) == valid_signer_count(s, ids) + 1,
{
    lemma_valid_signers_are_board_members(s, ids);
    lemma_valid_signers_are_board_members(s, ids.push(u));
    let p = |v: u64| role_of_id(s, v) == UserRole::BoardMember;
    ids.lemma_filter_push(u, p);
}

} // verus!
