//! Signing and unsigning actions.
use vstd::prelude::*;
use crate::common::TxContext;
use crate::unordered_set::remove_value;
use super::action::{ActionId, ActionStatus, GroupId};
use super::check_signature::{check_all, lemma_check_all_shape};
use super::error::MultisigError;
use super::signature::{ActionType, SignatureArg};
use super::state::{
    action_exists, group_members, pending, group_of, group_status_of, in_actions, insert_all,
    multisig_wf, remove_all, role_of, role_of_id, signers_of, tables_wf, user_id, Multisig,
    MultisigState,
};
use super::user_role::role_can_sign;

verus! {

/// The storage after the users `ids` sign action `id`.
pub open spec fn with_signatures(s: MultisigState, id: int, ids: Seq<u64>) -> MultisigState {
    MultisigState { signers: s.signers.update(id - 1, insert_all(s.signers[id - 1], ids)), ..s }
}

/// What `sign` does: the action must be pending and its batch, if any,
/// not aborted; the signatures are checked and their signers added.
pub open spec fn sign_outcome(
    s: MultisigState,
    action_id: ActionId,
    sigs: Seq<SignatureArg>,
    verdicts: Seq<bool>,
) -> Result<MultisigState, MultisigError> {
    let g = group_of(s, action_id);
    if !action_exists(s, action_id) {
        Err(MultisigError::ActionDoesNotExist)
    } else if g != 0 && group_status_of(s, g) != ActionStatus::Available {
        Err(MultisigError::CannotSignAbortedBatch)
    } else {
        match check_all(s, s.nonces, sigs, verdicts, ActionType::SimpleAction) {
            Err(e) => Err(e),
            Ok((ids, ns)) => Ok(with_signatures(MultisigState { nonces: ns, ..s }, action_id as int, ids)),
        }
    }
}

/// The storage after the users `ids` sign each of the actions `members`, in order.
pub open spec fn sign_members(s: MultisigState, members: Seq<u64>, ids: Seq<u64>) -> MultisigState
    decreases members.len(),
{
    if members.len() == 0 {
        s
    } else {
        with_signatures(
            sign_members(s, members.drop_last(), ids),
            members.last() as int,
            ids,
        )
    }
}

/// What `signBatch` does: the batch must be available and not empty, the
/// signatures are checked, every action of the batch must be pending, and
/// the signers sign each of them.
pub open spec fn sign_batch_outcome(
    s: MultisigState,
    group_id: GroupId,
    sigs: Seq<SignatureArg>,
    verdicts: Seq<bool>,
) -> Result<MultisigState, MultisigError> {
    let members = group_members(s, group_id);
    if group_status_of(s, group_id) != ActionStatus::Available {
        Err(MultisigError::CannotSignAbortedBatch)
    } else if members.len() == 0 {
        Err(MultisigError::InvalidGroupId)
    } else {
        match check_all(s, s.nonces, sigs, verdicts, ActionType::Group) {
            Err(e) => Err(e),
            Ok((ids, ns)) => if exists|j: int|
                0 <= j < members.len() && !pending(s, #[trigger] members[j] as int) {
                Err(MultisigError::ActionDoesNotExist)
            } else {
                Ok(sign_members(MultisigState { nonces: ns, ..s }, members, ids))
            },
        }
    }
}

/// The storage after user `user` withdraws its signature from action `id`.
pub open spec fn without_signer(s: MultisigState, id: int, user: u64) -> MultisigState {
    MultisigState { signers: s.signers.update(id - 1, remove_value(s.signers[id - 1], user)), ..s }
}

/// The storage after user `user` withdraws its signature from each of the
/// actions `members`, in order.
pub open spec fn unsign_members(s: MultisigState, members: Seq<u64>, user: u64) -> MultisigState
    decreases members.len(),
{
    if members.len() == 0 {
        s
    } else {
        without_signer(unsign_members(s, members.drop_last(), user), members.last() as int, user)
    }
}

/// The ids among `ids` whose users may no longer sign, in order.
pub open spec fn stale_ids(s: MultisigState, ids: Seq<u64>) -> Seq<u64>
    decreases ids.len(),
{
    if ids.len() == 0 {
        Seq::empty()
    } else {
        let p = stale_ids(s, ids.drop_last());
        if !role_can_sign(role_of_id(s, ids.last())) {
            p.push(ids.last())
        } else {
            p
        }
    }
}

proof fn lemma_sign_members_keeps(s: MultisigState, members: Seq<u64>, ids: Seq<u64>)
    requires
        tables_wf(s),
        forall|j: int| 0 <= j < members.len() ==> pending(s, #[trigger] members[j] as int),
        forall|j: int| 0 <= j < ids.len() ==> 1 <= #[trigger] ids[j] <= s.users.len(),
    ensures
        tables_wf(sign_members(s, members, ids)),
        sign_members(s, members, ids) == (MultisigState {
            signers: sign_members(s, members, ids).signers,
            ..s
        }),
    decreases members.len(),
{
    if members.len() > 0 {
        let p = members.drop_last();
        assert forall|j: int| 0 <= j < p.len() implies pending(s, #[trigger] p[j] as int) by {
            assert(p[j] == members[j]);
        }
        lemma_sign_members_keeps(s, p, ids);
        let t = sign_members(s, p, ids);
        let a = members.last() as int;
        assert(pending(s, members[members.len() - 1] as int));
        super::state::lemma_insert_all_props(t.signers[a - 1], ids, 1, s.users.len() as int);
        let u = sign_members(s, members, ids);
        assert forall|i: int, j: int|
            0 <= i < u.signers.len() && 0 <= j < u.signers[i].len() implies 1
            <= #[trigger] u.signers[i][j] <= u.users.len() by {
            if i != a - 1 {
                assert(u.signers[i] == t.signers[i]);
            }
        }
        assert forall|i: int| 0 <= i < u.signers.len() implies (
        #[trigger] u.signers[i]).no_duplicates() by {
            if i != a - 1 {
                assert(u.signers[i] == t.signers[i]);
            }
        }
    }
}

impl Multisig {
    /// Adds the user `caller_id`'s signature... withdraws it from action
    /// `action_id`, which must be pending.
    pub fn unsign_action(&mut self, action_id: ActionId, caller_id: u64) -> (r: Result<
        (),
        MultisigError,
    >)
        requires
            old(self).wf(),
        ensures
            final(self).wf(),
            r is Ok <==> action_exists(old(self)@, action_id),
            r is Err ==> r == Err::<(), MultisigError>(MultisigError::ActionDoesNotExist)
                && final(self)@ == old(self)@,
            r is Ok ==> final(self)@ == without_signer(old(self)@, action_id as int, caller_id),
    {
        self.require_action_exists(action_id)?;
        let mut ids: Vec<u64> = Vec::new();
        ids.push(caller_id);
        proof {
            assert(ids@.drop_last() =~= Seq::<u64>::empty());
            assert(ids@.last() == caller_id);
            let k = action_id - 1;
            reveal_with_fuel(remove_all, 2);
            assert(remove_all(self@.signers[k as int], ids@) == remove_value(self@.signers[k as int], caller_id));
        }
        self.remove_signers(action_id, &ids);
        Ok(())
    }

    /// Board members sign action `action_id` through signatures; `verdicts[i]`
    /// is what the virtual machine's verification of `signatures[i]` reported.
    pub fn sign(&mut self, action_id: ActionId, signatures: &Vec<SignatureArg>, verdicts: &Vec<bool>) -> (r:
        Result<(), MultisigError>)
        requires
            old(self).wf(),
            signatures@.len() == verdicts@.len(),
        ensures
            final(self).wf(),
            match sign_outcome(old(self)@, action_id, signatures@, verdicts@) {
                Ok(s) => r is Ok && final(self)@ == s,
                Err(e) => r == Err::<(), MultisigError>(e) && final(self)@ == old(self)@,
            },
    {
        self.require_action_exists(action_id)?;
        let group_id = self.get_group_for_action(action_id);
        if group_id != 0 {
            let group_status = self.get_action_group_status(group_id);
            if group_status != ActionStatus::Available {
                return Err(MultisigError::CannotSignAbortedBatch);
            }
        }
        let (user_ids, nonces) = self.check_single_action_signatures(action_id, signatures, verdicts)?;
        proof {
            lemma_check_all_shape(self@, self@.nonces, signatures@, verdicts@, ActionType::SimpleAction);
        }
        self.set_nonces(nonces);
        self.add_signatures(action_id, &user_ids);
        Ok(())
    }

    /// Board members sign every action of batch `group_id` through
    /// signatures for the batch.
    #[verifier::loop_isolation(false)]
    pub fn sign_batch(&mut self, group_id: GroupId, signatures: &Vec<SignatureArg>, verdicts: &Vec<bool>) -> (r:
        Result<(), MultisigError>)
        requires
            old(self).wf(),
            signatures@.len() == verdicts@.len(),
        ensures
            final(self).wf(),
            match sign_batch_outcome(old(self)@, group_id, signatures@, verdicts@) {
                Ok(s) => r is Ok && final(self)@ == s,
                Err(e) => r == Err::<(), MultisigError>(e) && final(self)@ == old(self)@,
            },
    {
        let ghost s0 = self@;
        let group_status = self.get_action_group_status(group_id);
        if group_status != ActionStatus::Available {
            return Err(MultisigError::CannotSignAbortedBatch);
        }
        let members = self.get_action_group(group_id);
        if members.len() == 0 {
            return Err(MultisigError::InvalidGroupId);
        }
        let (user_ids, nonces) = self.check_group_signatures(group_id, signatures, verdicts)?;
        proof {
            lemma_check_all_shape(self@, self@.nonces, signatures@, verdicts@, ActionType::Group);
        }
        let n = self.get_action_last_index();
        let mut k: usize = 0;
        while k < members.len()
            invariant
                n == s0.actions.len(),
                self@ == s0,
                self.wf(),
                members@ == group_members(s0, group_id),
                k <= members@.len(),
                forall|j: int| 0 <= j < k ==> pending(s0, #[trigger] members@[j] as int),
            decreases members.len() - k,
        {
            proof {
                assert(group_members(s0, group_id)[k as int] <= s0.actions.len());
                assert(members@[k as int] <= n);
            }
            if self.require_action_exists(members[k] as ActionId).is_err() {
                proof {
                    assert(!pending(s0, members@[k as int] as int));
                    assert(exists|j: int| 0 <= j < members@.len() && !pending(s0, #[trigger] members@[j] as int));
                }
                return Err(MultisigError::ActionDoesNotExist);
            }
            k = k + 1;
        }
        let ghost s1 = MultisigState { nonces: nonces@, ..s0 };
        self.set_nonces(nonces);
        let mut i: usize = 0;
        while i < members.len()
            invariant
                n == s0.actions.len(),
                tables_wf(s1),
                s1 == (MultisigState { nonces: s1.nonces, ..s0 }),
                self.tables_ok(),
                multisig_wf(s0),
                members@ == group_members(s0, group_id),
                forall|j: int| 0 <= j < members@.len() ==> pending(s0, #[trigger] members@[j] as int),
                forall|j: int| 0 <= j < user_ids@.len() ==> 1 <= #[trigger] user_ids@[j] <= s0.users.len(),
                i <= members@.len(),
                self@ == sign_members(s1, members@.subrange(0, i as int), user_ids@),
            decreases members.len() - i,
        {
            proof {
                assert(members@.subrange(0, i + 1).drop_last() =~= members@.subrange(0, i as int));
                assert(pending(s0, members@[i as int] as int));
                assert(members@[i as int] <= n);
                assert forall|j: int| 0 <= j < members@.subrange(0, i as int).len() implies pending(s1, #[trigger] members@.subrange(0, i as int)[j] as int) by {
                    assert(members@.subrange(0, i as int)[j] == members@[j]);
                    assert(pending(s0, members@[j] as int));
                }
                lemma_sign_members_keeps(s1, members@.subrange(0, i as int), user_ids@);
            }
            self.add_signatures(members[i] as ActionId, &user_ids);
            i = i + 1;
        }
        proof {
            assert(members@.subrange(0, members@.len() as int) =~= members@);
            assert forall|j: int| 0 <= j < members@.len() implies pending(s1, #[trigger] members@[j] as int) by {
                assert(pending(s0, members@[j] as int));
            }
            lemma_sign_members_keeps(s1, members@, user_ids@);
        }
        Ok(())
    }

    /// A board member withdraws its signature from action `action_id`.
    pub fn unsign(&mut self, ctx: &TxContext, action_id: ActionId) -> (r: Result<(), MultisigError>)
        requires
            old(self).wf(),
        ensures
            final(self).wf(),
            ({
                let s = old(self)@;
                if !role_can_sign(role_of(s, ctx.caller)) {
                    r == Err::<(), MultisigError>(MultisigError::OnlyBoardMembersCanUnsign)
                        && final(self)@ == s
                } else if !action_exists(s, action_id) {
                    r == Err::<(), MultisigError>(MultisigError::ActionDoesNotExist) && final(self)@
                        == s
                } else {
                    r is Ok && final(self)@ == without_signer(s, action_id as int, user_id(s, ctx.caller))
                }
            }),
    {
        let (caller_id, caller_role) = self.get_caller_id_and_role(ctx);
        caller_role.require_can_unsign()?;
        self.unsign_action(action_id, caller_id)
    }

    /// A board member withdraws its signature from every action of batch `group_id`.
    #[verifier::loop_isolation(false)]
    pub fn unsign_batch(&mut self, ctx: &TxContext, group_id: GroupId) -> (r: Result<
        (),
        MultisigError,
    >)
        requires
            old(self).wf(),
        ensures
            final(self).wf(),
            ({
                let s = old(self)@;
                let members = group_members(s, group_id);
                if !role_can_sign(role_of(s, ctx.caller)) {
                    r == Err::<(), MultisigError>(MultisigError::OnlyBoardMembersCanUnsign)
                        && final(self)@ == s
                } else if members.len() == 0 {
                    r == Err::<(), MultisigError>(MultisigError::InvalidGroupId) && final(self)@ == s
                } else if exists|j: int|
                    0 <= j < members.len() && !pending(s, #[trigger] members[j] as int) {
                    r == Err::<(), MultisigError>(MultisigError::ActionDoesNotExist) && final(self)@
                        == s
                } else {
                    r is Ok && final(self)@ == unsign_members(s, members, user_id(s, ctx.caller))
                }
            }),
    {
        let ghost s0 = self@;
        let (caller_id, caller_role) = self.get_caller_id_and_role(ctx);
        caller_role.require_can_unsign()?;
        let members = self.get_action_group(group_id);
        if members.len() == 0 {
            return Err(MultisigError::InvalidGroupId);
        }
        let n = self.get_action_last_index();
        let mut k: usize = 0;
        while k < members.len()
            invariant
                n == s0.actions.len(),
                self@ == s0,
                self.wf(),
                members@ == group_members(s0, group_id),
                k <= members@.len(),
                forall|j: int| 0 <= j < k ==> pending(s0, #[trigger] members@[j] as int),
            decreases members.len() - k,
        {
            proof {
                assert(group_members(s0, group_id)[k as int] <= s0.actions.len());
                assert(members@[k as int] <= n);
            }
            if self.require_action_exists(members[k] as ActionId).is_err() {
                proof {
                    assert(!pending(s0, members@[k as int] as int));
                    assert(exists|j: int| 0 <= j < members@.len() && !pending(s0, #[trigger] members@[j] as int));
                }
                return Err(MultisigError::ActionDoesNotExist);
            }
            k = k + 1;
        }
        let mut i: usize = 0;
        while i < members.len()
            invariant
                n == s0.actions.len(),
                self.wf(),
                members@ == group_members(s0, group_id),
                forall|j: int| 0 <= j < members@.len() ==> pending(s0, #[trigger] members@[j] as int),
                i <= members@.len(),
                self@ == unsign_members(s0, members@.subrange(0, i as int), caller_id),
                forall|j: int| 0 <= j < members@.len() ==> pending(self@, #[trigger] members@[j] as int),
                self@.actions == s0.actions,
            decreases members.len() - i,
        {
            proof {
                assert(members@.subrange(0, i + 1).drop_last() =~= members@.subrange(0, i as int));
                assert(members@.subrange(0, i + 1).last() == members@[i as int]);
                assert(pending(s0, members@[i as int] as int));
                assert(members@[i as int] <= n);
            }
            let _ = self.unsign_action(members[i] as ActionId, caller_id);
            i = i + 1;
        }
        proof {
            assert(members@.subrange(0, members@.len() as int) =~= members@);
        }
        Ok(())
    }

    /// Drops the signatures of users of action `action_id` who may no longer
    /// sign: among `outdated_board_members`, or among all its signers when
    /// that list is empty.
    pub fn unsign_for_outdated_board_members(
        &mut self,
        action_id: ActionId,
        outdated_board_members: &Vec<u64>,
    )
        requires
            old(self).wf(),
        ensures
            final(self).wf(),
            ({
                let s = old(self)@;
                let candidates = if outdated_board_members@.len() == 0 {
                    signers_of(s, action_id)
                } else {
                    outdated_board_members@
                };
                final(self)@ == (if in_actions(s, action_id) {
                    MultisigState {
                        signers: s.signers.update(
                            action_id - 1,
                            remove_all(s.signers[action_id - 1], stale_ids(s, candidates)),
                        ),
                        ..s
                    }
                } else {
                    s
                })
            }),
    {
        let ghost s0 = self@;
        let candidates = if outdated_board_members.len() == 0 {
            self.get_action_signer_ids(action_id)
        } else {
            outdated_board_members.clone()
        };
        let mut to_remove: Vec<u64> = Vec::new();
        let mut i: usize = 0;
        while i < candidates.len()
            invariant
                self@ == s0,
                self.wf(),
                i <= candidates@.len(),
                to_remove@ == stale_ids(s0, candidates@.subrange(0, i as int)),
            decreases candidates.len() - i,
        {
            proof {
                assert(candidates@.subrange(0, i + 1).drop_last() =~= candidates@.subrange(0, i as int));
            }
            if !self.get_role_of_id(candidates[i]).can_sign() {
                to_remove.push(candidates[i]);
            }
            i = i + 1;
        }
        proof {
            assert(candidates@.subrange(0, candidates@.len() as int) =~= candidates@);
        }
        self.remove_signers(action_id, &to_remove);
    }
}

} // verus!
