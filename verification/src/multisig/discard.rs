//! Discarding actions that are no longer meant to run.
use vstd::prelude::*;
use crate::common::{Address, TxContext};
use super::action::{ActionId, ActionStatus};
use super::error::MultisigError;
use super::state::{
    cleared, group_of, role_of, signers_of, valid_signer_count, Multisig, MultisigState,
};
use super::user_role::role_can_propose;

verus! {

/// The storage after the batch of action `id`, if it has one, is aborted.
pub open spec fn with_batch_aborted(s: MultisigState, id: ActionId) -> MultisigState {
    if group_of(s, id) != 0 {
        MultisigState {
            group_status: s.group_status.update(group_of(s, id) - 1, ActionStatus::Aborted),
            ..s
        }
    } else {
        s
    }
}

/// What discarding action `id` does: it must have no valid signature left;
/// its batch is aborted and the action cleared.
pub open spec fn discard_outcome(s: MultisigState, id: ActionId) -> Result<MultisigState, MultisigError> {
    if valid_signer_count(s, signers_of(s, id)) != 0 {
        Err(MultisigError::CannotDiscardSignedAction)
    } else {
        Ok(cleared(with_batch_aborted(s, id), id))
    }
}

/// Discarding the actions `ids` one after the other, or the first failure.
pub open spec fn discard_all(s: MultisigState, ids: Seq<ActionId>) -> Result<MultisigState, MultisigError>
    decreases ids.len(),
{
    if ids.len() == 0 {
        Ok(s)
    } else {
        match discard_all(s, ids.drop_last()) {
            Err(e) => Err(e),
            Ok(t) => discard_outcome(t, ids.last()),
        }
    }
}

/// Once one discard fails, discarding the whole list fails the same way.
pub proof fn lemma_discard_all_failure_sticks(s: MultisigState, ids: Seq<ActionId>, k: int)
    requires
        0 <= k <= ids.len(),
        discard_all(s, ids.subrange(0, k)) is Err,
    ensures
        discard_all(s, ids) == discard_all(s, ids.subrange(0, k)),
    decreases ids.len() - k,
{
    if k < ids.len() {
        assert(ids.subrange(0, k + 1).drop_last() =~= ids.subrange(0, k));
        lemma_discard_all_failure_sticks(s, ids, k + 1);
    } else {
        assert(ids.subrange(0, k) =~= ids);
    }
}

/// What `discardBatch` does: the caller must be allowed to discard, and each
/// action is discarded in order.
pub open spec fn discard_batch_outcome(s: MultisigState, caller: Address, ids: Seq<ActionId>) -> Result<
    MultisigState,
    MultisigError,
> {
    if !role_can_propose(role_of(s, caller)) {
        Err(MultisigError::OnlyProposersCanDiscard)
    } else {
        discard_all(s, ids)
    }
}

impl Multisig {
    /// Discards action `action_id`, which must have no valid signature
    /// left: its batch, if any, is aborted and the action cleared.
    pub fn discard_action(&mut self, action_id: ActionId) -> (r: Result<(), MultisigError>)
        requires
            old(self).wf(),
        ensures
            final(self).wf(),
            match discard_outcome(old(self)@, action_id) {
                Ok(t) => r is Ok && final(self)@ == t,
                Err(e) => r == Err::<(), MultisigError>(e) && final(self)@ == old(self)@,
            },
    {
        if self.get_action_valid_signer_count(action_id) != 0 {
            return Err(MultisigError::CannotDiscardSignedAction);
        }
        self.abort_batch_of_action(action_id);
        let _ = self.clear_action(action_id);
        Ok(())
    }

    /// Clears an action that is no longer meant to run. Its signatures must
    /// first be withdrawn with `unsign`; otherwise the endpoint could be abused.
    pub fn discard_action_endpoint(&mut self, ctx: &TxContext, action_id: ActionId) -> (r: Result<
        (),
        MultisigError,
    >)
        requires
            old(self).wf(),
        ensures
            final(self).wf(),
            !role_can_propose(role_of(old(self)@, ctx.caller)) ==> r == Err::<(), MultisigError>(
                MultisigError::OnlyProposersCanDiscard,
            ) && final(self)@ == old(self)@,
            role_can_propose(role_of(old(self)@, ctx.caller)) ==> match discard_outcome(
                old(self)@,
                action_id,
            ) {
                Ok(t) => r is Ok && final(self)@ == t,
                Err(e) => r == Err::<(), MultisigError>(e) && final(self)@ == old(self)@,
            },
    {
        let (_, caller_role) = self.get_caller_id_and_role(ctx);
        caller_role.require_can_discard_action()?;
        self.discard_action(action_id)
    }

    /// Discards every action of `action_ids`, in order; all of them or none.
    #[verifier::loop_isolation(false)]
    pub fn discard_batch(&mut self, ctx: &TxContext, action_ids: &Vec<ActionId>) -> (r: Result<
        (),
        MultisigError,
    >)
        requires
            old(self).wf(),
        ensures
            final(self).wf(),
            match discard_batch_outcome(old(self)@, ctx.caller, action_ids@) {
                Ok(t) => r is Ok && final(self)@ == t,
                Err(e) => r == Err::<(), MultisigError>(e) && final(self)@ == old(self)@,
            },
    {
        let (_, caller_role) = self.get_caller_id_and_role(ctx);
        caller_role.require_can_discard_action()?;
        let ghost s = self@;
        let mut work = self.duplicate();
        let mut i: usize = 0;
        proof {
            assert(action_ids@.subrange(0, 0) =~= Seq::<ActionId>::empty());
        }
        while i < action_ids.len()
            invariant
                work.wf(),
                i <= action_ids@.len(),
                discard_all(s, action_ids@.subrange(0, i as int)) == Ok::<
                    MultisigState,
                    MultisigError,
                >(work@),
            decreases action_ids.len() - i,
        {
            proof {
                assert(action_ids@.subrange(0, i + 1).drop_last() =~= action_ids@.subrange(
                    0,
                    i as int,
                ));
            }
            match work.discard_action(action_ids[i]) {
                Err(e) => {
                    proof {
                        assert(discard_all(s, action_ids@.subrange(0, i + 1)) == Err::<
                            MultisigState,
                            MultisigError,
                        >(e));
                        lemma_discard_all_failure_sticks(s, action_ids@, i + 1);
                    }
                    return Err(e);
                },
                Ok(_) => {},
            }
            i = i + 1;
        }
        proof {
            assert(action_ids@.subrange(0, action_ids@.len() as int) =~= action_ids@);
        }
        *self = work;
        Ok(())
    }
}

} // verus!
