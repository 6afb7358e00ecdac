//! Performing actions that reached their quorum.
//!
//! Changes of the board and of the quorum are applied to the storage here.
//! Transfers, calls, deployments, upgrades and module changes are work for
//! the virtual machine: a performed action is handed back to the caller,
//! which carries it out.
use vstd::prelude::*;
use crate::common::{Address, TxContext};
use super::action::{Action, ActionId, ActionModel, ActionStatus, GroupId};
use super::sign::{sign_batch_outcome, sign_outcome};
use super::signature::SignatureArg;
use super::error::MultisigError;
use super::state::{
    actions_view, change_role, change_role_overflows, cleared, group_members, count_role, group_of, group_status_of,
    lemma_count_role_bounded, lemma_count_role_pos, lemma_count_role_update, lemma_count_role_push, lemma_index_of_pushed,
    multisig_wf, quorum_is_reached, role_of, role_of_id, tables_wf, user_id, Multisig, MultisigState,
    MAX_BOARD_MEMBERS,
};
use super::user_role::{role_can_propose, UserRole};

verus! {

/// Why running action `a` on storage `s` fails, if it does: a new board
/// member must fit under the board limit, and after a change of users or of
/// the quorum the quorum must not exceed the board and someone must be left
/// to propose.
pub open spec fn execute_error(s: MultisigState, a: ActionModel) -> Option<MultisigError> {
    match a {
        ActionModel::AddBoardMember(addr) => if s.num_board_members >= MAX_BOARD_MEMBERS {
            Some(MultisigError::BoardSizeLimit)
        } else if change_role_overflows(s, addr, UserRole::BoardMember) {
            Some(MultisigError::ArithmeticOverflow)
        } else {
            None
        },
        ActionModel::AddProposer(addr) => if change_role_overflows(s, addr, UserRole::Proposer) {
            Some(MultisigError::ArithmeticOverflow)
        } else if s.quorum > change_role(s, addr, UserRole::Proposer).num_board_members {
            Some(MultisigError::QuorumExceedsBoardSize)
        } else {
            None
        },
        ActionModel::RemoveUser(addr) => {
            let t = change_role(s, addr, UserRole::NoRole);
            if t.num_board_members + t.num_proposers == 0 {
                Some(MultisigError::CannotRemoveAllUsers)
            } else if s.quorum > t.num_board_members {
                Some(MultisigError::QuorumExceedsBoardSize)
            } else {
                None
            }
        },
        ActionModel::ChangeQuorum(q) => if q > s.num_board_members {
            Some(MultisigError::QuorumExceedsBoardSize)
        } else {
            None
        },
        _ => None,
    }
}

/// The storage after action `a` ran on `s`. Actions that the virtual
/// machine carries out leave the storage as it is.
pub open spec fn execute_apply(s: MultisigState, a: ActionModel) -> MultisigState {
    match a {
        ActionModel::AddBoardMember(addr) => change_role(s, addr, UserRole::BoardMember),
        ActionModel::AddProposer(addr) => change_role(s, addr, UserRole::Proposer),
        ActionModel::RemoveUser(addr) => change_role(s, addr, UserRole::NoRole),
        ActionModel::ChangeQuorum(q) => MultisigState { quorum: q, ..s },
        _ => s,
    }
}

/// What performing action `id` does: the id must be a stored action, and
/// its batch, if any, not aborted; the action is cleared and then run. A
/// failure leaves the storage as it was.
pub open spec fn perform_outcome(s: MultisigState, id: ActionId) -> Result<MultisigState, MultisigError> {
    if !(1 <= id <= s.actions.len()) {
        Err(MultisigError::IndexOutOfRange)
    } else if group_of(s, id) != 0 && group_status_of(s, group_of(s, id)) != ActionStatus::Available {
        Err(MultisigError::CannotPerformAbortedBatch)
    } else {
        let a = s.actions[id - 1];
        let c = cleared(s, id);
        match execute_error(c, a) {
            Some(e) => Err(e),
            None => Ok(execute_apply(c, a)),
        }
    }
}


/// What `performAction` does: the caller must be allowed to perform, the
/// action must have reached its quorum and belong to no batch.
pub open spec fn perform_endpoint_outcome(s: MultisigState, caller: Address, id: ActionId) -> Result<
    MultisigState,
    MultisigError,
> {
    if !role_can_propose(role_of(s, caller)) {
        Err(MultisigError::OnlyProposersCanPerform)
    } else if !quorum_is_reached(s, id) {
        Err(MultisigError::QuorumNotReached)
    } else if group_of(s, id) != 0 {
        Err(MultisigError::MayNotExecuteAlone)
    } else {
        perform_outcome(s, id)
    }
}

/// What performing an action when it can be done does: like `performAction`,
/// except that an action short of its quorum is left alone. The flag tells
/// whether the action was performed.
pub open spec fn try_perform_outcome(s: MultisigState, caller: Address, id: ActionId) -> Result<
    (MultisigState, bool),
    MultisigError,
> {
    if !role_can_propose(role_of(s, caller)) {
        Err(MultisigError::OnlyProposersCanPerform)
    } else if !quorum_is_reached(s, id) {
        Ok((s, false))
    } else if group_of(s, id) != 0 {
        Err(MultisigError::MayNotExecuteAlone)
    } else {
        match perform_outcome(s, id) {
            Err(e) => Err(e),
            Ok(t) => Ok((t, true)),
        }
    }
}

/// Performing the actions `ids` one after the other, each checked for its
/// quorum first when `check_quorum` holds: the storage after them and the
/// actions performed, or the first failure.
pub open spec fn perform_all(s: MultisigState, ids: Seq<u64>, check_quorum: bool) -> Result<
    (MultisigState, Seq<ActionModel>),
    MultisigError,
>
    decreases ids.len(),
{
    if ids.len() == 0 {
        Ok((s, Seq::empty()))
    } else {
        match perform_all(s, ids.drop_last(), check_quorum) {
            Err(e) => Err(e),
            Ok((t, done)) => {
                let id = ids.last() as ActionId;
                if check_quorum && !quorum_is_reached(t, id) {
                    Err(MultisigError::QuorumNotReached)
                } else {
                    match perform_outcome(t, id) {
                        Err(e) => Err(e),
                        Ok(u) => Ok((u, done.push(t.actions[id - 1]))),
                    }
                }
            },
        }
    }
}

/// Once one of the actions fails, performing the whole list fails the same way.
pub proof fn lemma_perform_all_failure_sticks(
    s: MultisigState,
    ids: Seq<u64>,
    k: int,
    check_quorum: bool,
)
    requires
        0 <= k <= ids.len(),
        perform_all(s, ids.subrange(0, k), check_quorum) is Err,
    ensures
        perform_all(s, ids, check_quorum) == perform_all(s, ids.subrange(0, k), check_quorum),
    decreases ids.len() - k,
{
    if k < ids.len() {
        assert(ids.subrange(0, k + 1).drop_last() =~= ids.subrange(0, k));
        lemma_perform_all_failure_sticks(s, ids, k + 1, check_quorum);
    } else {
        assert(ids.subrange(0, k) =~= ids);
    }
}

/// What `performBatch` does: the caller must be allowed to perform, the
/// batch must be available and not empty, and its actions are performed in
/// order, each once it reached its quorum.
pub open spec fn perform_batch_outcome(s: MultisigState, caller: Address, group_id: GroupId) -> Result<
    (MultisigState, Seq<ActionModel>),
    MultisigError,
> {
    if !role_can_propose(role_of(s, caller)) {
        Err(MultisigError::OnlyProposersCanPerform)
    } else if group_status_of(s, group_id) != ActionStatus::Available {
        Err(MultisigError::CannotPerformAbortedBatch)
    } else if group_members(s, group_id).len() == 0 {
        Err(MultisigError::InvalidGroupId)
    } else {
        perform_all(s, group_members(s, group_id), true)
    }
}

/// What `signAndPerform` does: the signatures are added, then the action is
/// performed if it can be.
pub open spec fn sign_and_perform_outcome(
    s: MultisigState,
    caller: Address,
    id: ActionId,
    sigs: Seq<SignatureArg>,
    verdicts: Seq<bool>,
) -> Result<(MultisigState, bool), MultisigError> {
    match sign_outcome(s, id, sigs, verdicts) {
        Err(e) => Err(e),
        Ok(t) => try_perform_outcome(t, caller, id),
    }
}

/// What `signBatchAndPerform` does: the signatures are added to the batch,
/// the caller must be allowed to perform, every action of the batch must
/// have reached its quorum, and then all of them are performed in order.
pub open spec fn sign_batch_and_perform_outcome(
    s: MultisigState,
    caller: Address,
    group_id: GroupId,
    sigs: Seq<SignatureArg>,
    verdicts: Seq<bool>,
) -> Result<(MultisigState, Seq<ActionModel>), MultisigError> {
    match sign_batch_outcome(s, group_id, sigs, verdicts) {
        Err(e) => Err(e),
        Ok(t) => {
            let members = group_members(t, group_id);
            if !role_can_propose(role_of(t, caller)) {
                Err(MultisigError::OnlyProposersCanPerform)
            } else if exists|j: int|
                0 <= j < members.len() && !quorum_is_reached(t, #[trigger] members[j] as ActionId) {
                Err(MultisigError::QuorumNotReachedForAction)
            } else {
                perform_all(t, members, false)
            }
        },
    }
}

/// The board and proposer counts after a change of role follow the role
/// the user had.
pub proof fn lemma_change_role_counts(s: MultisigState, address: Address, r: UserRole)
    requires
        tables_wf(s),
        !change_role_overflows(s, address, r),
    ensures
        change_role(s, address, r).num_board_members == s.num_board_members - (if role_of(
            s,
            address,
        ) == UserRole::BoardMember {
            1int
        } else {
            0int
        }) + (if r == UserRole::BoardMember {
            1int
        } else {
            0int
        }),
        change_role(s, address, r).num_proposers == s.num_proposers - (if role_of(s, address)
            == UserRole::Proposer {
            1int
        } else {
            0int
        }) + (if r == UserRole::Proposer {
            1int
        } else {
            0int
        }),
        tables_wf(change_role(s, address, r)),
        change_role(s, address, r).quorum == s.quorum,
{
    let id = user_id(s, address);
    if id == 0 {
        assert(role_of(s, address) == UserRole::NoRole);
        if r != UserRole::NoRole {
            lemma_index_of_pushed(s.users, address);
            let s1 = MultisigState {
                users: s.users.push(address),
                roles: s.roles.push(UserRole::NoRole),
                nonces: s.nonces.push(0),
                ..s
            };
            assert(user_id(s1, address) == s.users.len() + 1);
            lemma_count_role_push(s.roles, UserRole::NoRole, UserRole::BoardMember);
            lemma_count_role_push(s.roles, UserRole::NoRole, UserRole::Proposer);
            let idx = s.users.len() as int;
            lemma_count_role_update(s1.roles, idx, r, UserRole::BoardMember);
            lemma_count_role_update(s1.roles, idx, r, UserRole::Proposer);
            lemma_count_role_bounded(s1.roles.update(idx, r), UserRole::BoardMember);
            lemma_count_role_bounded(s1.roles.update(idx, r), UserRole::Proposer);
            let t = change_role(s, address, r);
            assert(t.roles == s1.roles.update(idx, r));
        }
    } else {
        let k = s.users.index_of(address);
        assert(0 <= k < s.users.len() && s.users[k] == address);
        assert(role_of(s, address) == s.roles[k]);
        lemma_count_role_update(s.roles, k, r, UserRole::BoardMember);
        lemma_count_role_update(s.roles, k, r, UserRole::Proposer);
        lemma_count_role_bounded(s.roles.update(k, r), UserRole::BoardMember);
        lemma_count_role_bounded(s.roles.update(k, r), UserRole::Proposer);
        if s.roles[k] == UserRole::BoardMember {
            lemma_count_role_pos(s.roles, k, UserRole::BoardMember);
        }
        if s.roles[k] == UserRole::Proposer {
            lemma_count_role_pos(s.roles, k, UserRole::Proposer);
        }
        let t = change_role(s, address, r);
        assert(t.roles == s.roles.update(k, r));
    }
}

impl Multisig {
    /// The board and proposer counts if `address` were given role `r`.
    fn counts_after_role_change(&self, address: Address, r: UserRole) -> (c: (usize, usize))
        requires
            self.tables_ok(),
            !change_role_overflows(self@, address, r),
            r != UserRole::BoardMember,
        ensures
            c.0 == change_role(self@, address, r).num_board_members,
            c.1 == change_role(self@, address, r).num_proposers,
    {
        proof {
            lemma_change_role_counts(self@, address, r);
            if role_of(self@, address) == UserRole::BoardMember {
                lemma_count_role_pos(self@.roles, user_id(self@, address) - 1, UserRole::BoardMember);
            }
            if role_of(self@, address) == UserRole::Proposer {
                lemma_count_role_pos(self@.roles, user_id(self@, address) - 1, UserRole::Proposer);
            }
        }
        let (_, old_role) = self.get_id_and_role(address);
        let mut board = self.get_num_board_members();
        let mut proposers = self.get_num_proposers();
        if old_role == UserRole::BoardMember {
            board = board - 1;
        }
        if old_role == UserRole::Proposer {
            proposers = proposers - 1;
        }
        if r == UserRole::Proposer {
            proposers = proposers + 1;
        }
        (board, proposers)
    }

    /// Why running `action` would fail, checked before anything changes.
    fn execute_check(&self, action: &Action) -> (r: Result<(), MultisigError>)
        requires
            self.wf(),
        ensures
            match execute_error(self@, action@) {
                Some(e) => r == Err::<(), MultisigError>(e),
                None => r is Ok,
            },
    {
        match action {
            Action::AddBoardMember(addr) => {
                if self.get_num_board_members() >= MAX_BOARD_MEMBERS {
                    return Err(MultisigError::BoardSizeLimit);
                }
                let id = self.get_user_id(*addr);
                if id == 0 && (self.get_num_users() as u64 >= u64::MAX - 1 || self.get_num_users() >= usize::MAX - 1) {
                    return Err(MultisigError::ArithmeticOverflow);
                }
                Ok(())
            },
            Action::AddProposer(addr) => {
                let id = self.get_user_id(*addr);
                if id == 0 && (self.get_num_users() as u64 >= u64::MAX - 1 || self.get_num_users() >= usize::MAX - 1) {
                    return Err(MultisigError::ArithmeticOverflow);
                }
                let (board, _) = self.counts_after_role_change(*addr, UserRole::Proposer);
                if self.get_quorum() > board {
                    return Err(MultisigError::QuorumExceedsBoardSize);
                }
                Ok(())
            },
            Action::RemoveUser(addr) => {
                let (board, proposers) = self.counts_after_role_change(*addr, UserRole::NoRole);
                if board == 0 && proposers == 0 {
                    return Err(MultisigError::CannotRemoveAllUsers);
                }
                if self.get_quorum() > board {
                    return Err(MultisigError::QuorumExceedsBoardSize);
                }
                Ok(())
            },
            Action::ChangeQuorum(q) => {
                if *q > self.get_num_board_members() {
                    return Err(MultisigError::QuorumExceedsBoardSize);
                }
                Ok(())
            },
            _ => Ok(()),
        }
    }

    /// Runs `action` on the storage; the caller has checked that it does not fail.
    fn execute(&mut self, action: &Action)
        requires
            old(self).wf(),
            execute_error(old(self)@, action@) is None,
        ensures
            final(self).wf(),
            final(self)@ == execute_apply(old(self)@, action@),
    {
        match action {
            Action::AddBoardMember(addr) => {
                proof {
                    lemma_change_role_counts(self@, *addr, UserRole::BoardMember);
                }
                let _ = self.change_user_role(*addr, UserRole::BoardMember);
            },
            Action::AddProposer(addr) => {
                proof {
                    lemma_change_role_counts(self@, *addr, UserRole::Proposer);
                }
                let _ = self.change_user_role(*addr, UserRole::Proposer);
            },
            Action::RemoveUser(addr) => {
                proof {
                    lemma_change_role_counts(self@, *addr, UserRole::NoRole);
                }
                let _ = self.change_user_role(*addr, UserRole::NoRole);
            },
            Action::ChangeQuorum(q) => {
                self.set_quorum(*q);
            },
            _ => {},
        }
    }

    /// Performs action `action_id`: checks that it is a stored action and
    /// that its batch, if any, is not aborted, clears it, and runs it. The
    /// action is handed back, for the virtual machine to carry out what it
    /// must.
    pub fn perform_action(&mut self, action_id: ActionId) -> (r: Result<Action, MultisigError>)
        requires
            old(self).wf(),
        ensures
            final(self).wf(),
            match perform_outcome(old(self)@, action_id) {
                Ok(t) => r is Ok && final(self)@ == t && r->Ok_0@ == old(self)@.actions[action_id
                    - 1],
                Err(e) => r == Err::<Action, MultisigError>(e) && final(self)@ == old(self)@,
            },
    {
        if action_id == 0 || action_id > self.get_action_last_index() {
            return Err(MultisigError::IndexOutOfRange);
        }
        let group_id = self.get_group_for_action(action_id);
        if group_id != 0 {
            if self.get_action_group_status(group_id) != ActionStatus::Available {
                return Err(MultisigError::CannotPerformAbortedBatch);
            }
        }
        self.execute_check(self.action_ref(action_id))?;
        let action = self.clear_action(action_id);
        self.execute(&action);
        Ok(action)
    }

    /// Performs the action if the caller may perform it and it reached its
    /// quorum; one short of its quorum is left alone and `None` comes back.
    pub fn try_perform_action(&mut self, ctx: &TxContext, action_id: ActionId) -> (r: Result<
        Option<Action>,
        MultisigError,
    >)
        requires
            old(self).wf(),
        ensures
            final(self).wf(),
            match try_perform_outcome(old(self)@, ctx.caller, action_id) {
                Ok((t, done)) => r is Ok && final(self)@ == t && (r->Ok_0 is Some <==> done) && (
                done ==> r->Ok_0->Some_0@ == old(self)@.actions[action_id - 1]),
                Err(e) => r == Err::<Option<Action>, MultisigError>(e) && final(self)@ == old(
                    self,
                )@,
            },
    {
        let (_, caller_role) = self.get_caller_id_and_role(ctx);
        caller_role.require_can_perform_action()?;
        if !self.quorum_reached(action_id) {
            return Ok(None);
        }
        if self.get_group_for_action(action_id) != 0 {
            return Err(MultisigError::MayNotExecuteAlone);
        }
        let action = self.perform_action(action_id)?;
        Ok(Some(action))
    }

    /// Proposers and board members perform an action that reached its quorum
    /// and belongs to no batch.
    pub fn perform_action_endpoint(&mut self, ctx: &TxContext, action_id: ActionId) -> (r: Result<
        Action,
        MultisigError,
    >)
        requires
            old(self).wf(),
        ensures
            final(self).wf(),
            match perform_endpoint_outcome(old(self)@, ctx.caller, action_id) {
                Ok(t) => r is Ok && final(self)@ == t && r->Ok_0@ == old(self)@.actions[action_id
                    - 1],
                Err(e) => r == Err::<Action, MultisigError>(e) && final(self)@ == old(self)@,
            },
    {
        let (_, caller_role) = self.get_caller_id_and_role(ctx);
        caller_role.require_can_perform_action()?;
        if !self.quorum_reached(action_id) {
            return Err(MultisigError::QuorumNotReached);
        }
        if self.get_group_for_action(action_id) != 0 {
            return Err(MultisigError::MayNotExecuteAlone);
        }
        self.perform_action(action_id)
    }

    /// Performs the actions `ids` in order, each checked for its quorum first
    /// when `check_quorum` holds. On a failure the storage is left part-way.
    #[verifier::loop_isolation(false)]
    fn perform_ids(&mut self, ids: &Vec<u64>, check_quorum: bool) -> (r: Result<
        Vec<Action>,
        MultisigError,
    >)
        requires
            old(self).wf(),
        ensures
            final(self).wf(),
            match perform_all(old(self)@, ids@, check_quorum) {
                Ok((t, done)) => r is Ok && final(self)@ == t && actions_view(r->Ok_0@) == done,
                Err(e) => r == Err::<Vec<Action>, MultisigError>(e),
            },
    {
        let ghost s = self@;
        let mut performed: Vec<Action> = Vec::new();
        let mut i: usize = 0;
        proof {
            assert(ids@.subrange(0, 0) =~= Seq::<u64>::empty());
            assert(actions_view(performed@) =~= Seq::<ActionModel>::empty());
        }
        while i < ids.len()
            invariant
                self.wf(),
                i <= ids@.len(),
                perform_all(s, ids@.subrange(0, i as int), check_quorum) == Ok::<
                    (MultisigState, Seq<ActionModel>),
                    MultisigError,
                >((self@, actions_view(performed@))),
            decreases ids.len() - i,
        {
            let id = ids[i] as ActionId;
            proof {
                assert(ids@.subrange(0, i + 1).drop_last() =~= ids@.subrange(0, i as int));
                assert(ids@.subrange(0, i + 1).last() == ids@[i as int]);
            }
            if check_quorum && !self.quorum_reached(id) {
                proof {
                    assert(perform_all(s, ids@.subrange(0, i + 1), check_quorum) is Err);
                    lemma_perform_all_failure_sticks(s, ids@, i + 1, check_quorum);
                }
                return Err(MultisigError::QuorumNotReached);
            }
            let ghost before = self@;
            match self.perform_action(id) {
                Err(e) => {
                    proof {
                        assert(perform_all(s, ids@.subrange(0, i + 1), check_quorum) == Err::<
                            (MultisigState, Seq<ActionModel>),
                            MultisigError,
                        >(e));
                        lemma_perform_all_failure_sticks(s, ids@, i + 1, check_quorum);
                    }
                    return Err(e);
                },
                Ok(a) => {
                    proof {
                        assert(actions_view(performed@.push(a)) =~= actions_view(performed@).push(
                            a@,
                        ));
                    }
                    performed.push(a);
                },
            }
            i = i + 1;
        }
        proof {
            assert(ids@.subrange(0, ids@.len() as int) =~= ids@);
        }
        Ok(performed)
    }

    /// Performs every action of batch `group_id`, in order, each once it
    /// reached its quorum; all of them or none.
    pub fn perform_batch(&mut self, ctx: &TxContext, group_id: GroupId) -> (r: Result<
        Vec<Action>,
        MultisigError,
    >)
        requires
            old(self).wf(),
        ensures
            final(self).wf(),
            match perform_batch_outcome(old(self)@, ctx.caller, group_id) {
                Ok((t, done)) => r is Ok && final(self)@ == t && actions_view(r->Ok_0@) == done,
                Err(e) => r == Err::<Vec<Action>, MultisigError>(e) && final(self)@ == old(self)@,
            },
    {
        let (_, caller_role) = self.get_caller_id_and_role(ctx);
        caller_role.require_can_perform_action()?;
        if self.get_action_group_status(group_id) != ActionStatus::Available {
            return Err(MultisigError::CannotPerformAbortedBatch);
        }
        let members = self.get_action_group(group_id);
        if members.len() == 0 {
            return Err(MultisigError::InvalidGroupId);
        }
        let mut work = self.duplicate();
        let performed = work.perform_ids(&members, true)?;
        *self = work;
        Ok(performed)
    }

    /// Adds the signatures to action `action_id`, then performs it if it can
    /// be; all of it or nothing.
    pub fn sign_and_perform(
        &mut self,
        ctx: &TxContext,
        action_id: ActionId,
        signatures: &Vec<SignatureArg>,
        verdicts: &Vec<bool>,
    ) -> (r: Result<Option<Action>, MultisigError>)
        requires
            old(self).wf(),
            signatures@.len() == verdicts@.len(),
        ensures
            final(self).wf(),
            match sign_and_perform_outcome(old(self)@, ctx.caller, action_id, signatures@, verdicts@) {
                Ok((t, done)) => r is Ok && final(self)@ == t && (r->Ok_0 is Some <==> done) && (
                done ==> r->Ok_0->Some_0@ == old(self)@.actions[action_id - 1]),
                Err(e) => r == Err::<Option<Action>, MultisigError>(e) && final(self)@ == old(
                    self,
                )@,
            },
    {
        let mut work = self.duplicate();
        work.sign(action_id, signatures, verdicts)?;
        let performed = work.try_perform_action(ctx, action_id)?;
        *self = work;
        Ok(performed)
    }

    /// Adds the signatures to batch `group_id`, then performs all its
    /// actions, which must all have reached their quorum; all of it or nothing.
    #[verifier::loop_isolation(false)]
    pub fn sign_batch_and_perform(
        &mut self,
        ctx: &TxContext,
        group_id: GroupId,
        signatures: &Vec<SignatureArg>,
        verdicts: &Vec<bool>,
    ) -> (r: Result<Vec<Action>, MultisigError>)
        requires
            old(self).wf(),
            signatures@.len() == verdicts@.len(),
        ensures
            final(self).wf(),
            match sign_batch_and_perform_outcome(
                old(self)@,
                ctx.caller,
                group_id,
                signatures@,
                verdicts@,
            ) {
                Ok((t, done)) => r is Ok && final(self)@ == t && actions_view(r->Ok_0@) == done,
                Err(e) => r == Err::<Vec<Action>, MultisigError>(e) && final(self)@ == old(self)@,
            },
    {
        let mut work = self.duplicate();
        work.sign_batch(group_id, signatures, verdicts)?;
        let (_, caller_role) = work.get_caller_id_and_role(ctx);
        caller_role.require_can_perform_action()?;
        let members = work.get_action_group(group_id);
        let mut i: usize = 0;
        while i < members.len()
            invariant
                work.wf(),
                i <= members@.len(),
                members@ == group_members(work@, group_id),
                forall|j: int| 0 <= j < i ==> quorum_is_reached(work@, #[trigger] members@[j] as ActionId),
            decreases members.len() - i,
        {
            if !work.quorum_reached(members[i] as ActionId) {
                return Err(MultisigError::QuorumNotReachedForAction);
            }
            i = i + 1;
        }
        let performed = work.perform_ids(&members, false)?;
        *self = work;
        Ok(performed)
    }
}

} // verus!
