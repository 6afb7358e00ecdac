//! Signing by the board members themselves, each calling the wallet, with
//! no off-chain signature: the wallet's earlier signing interface.
use vstd::prelude::*;
use crate::common::{Address, TxContext};
use super::action::{Action, ActionId, ActionModel};
use super::error::MultisigError;
use super::perform::{perform_endpoint_outcome};
use super::sign::{with_signatures, without_signer};
use super::state::{
    action_exists, actions_view, insert_all, role_of, signers_of, tables_wf, user_id, Multisig,
    MultisigState,
};
use super::user_role::role_can_sign;

verus! {

/// What signing action `id` by `caller` does: the action must be pending
/// and the caller a board member, which then signs it.
pub open spec fn direct_sign_outcome(s: MultisigState, caller: Address, id: ActionId) -> Result<
    MultisigState,
    MultisigError,
> {
    if !action_exists(s, id) {
        Err(MultisigError::ActionDoesNotExist)
    } else if !role_can_sign(role_of(s, caller)) {
        Err(MultisigError::OnlyBoardMembersCanSign)
    } else {
        Ok(with_signatures(s, id as int, seq![user_id(s, caller)]))
    }
}

/// Signing the actions `ids` one after the other by a board member, or the
/// first that is not pending.
pub open spec fn direct_sign_all(s: MultisigState, caller: Address, ids: Seq<ActionId>) -> Result<
    MultisigState,
    MultisigError,
>
    decreases ids.len(),
{
    if ids.len() == 0 {
        Ok(s)
    } else {
        match direct_sign_all(s, caller, ids.drop_last()) {
            Err(e) => Err(e),
            Ok(t) => if !action_exists(t, ids.last()) {
                Err(MultisigError::ActionDoesNotExist)
            } else {
                Ok(with_signatures(t, ids.last() as int, seq![user_id(t, caller)]))
            },
        }
    }
}

/// What signing the actions `ids` does: the caller must be a board member,
/// and every action must be pending when its turn comes.
pub open spec fn direct_sign_batch_outcome(s: MultisigState, caller: Address, ids: Seq<ActionId>) -> Result<
    MultisigState,
    MultisigError,
> {
    if !role_can_sign(role_of(s, caller)) {
        Err(MultisigError::OnlyBoardMembersCanSign)
    } else {
        direct_sign_all(s, caller, ids)
    }
}

/// Performing the actions `ids` one after the other through `performAction`,
/// or the first failure.
pub open spec fn perform_each_endpoint(s: MultisigState, caller: Address, ids: Seq<ActionId>) -> Result<
    (MultisigState, Seq<ActionModel>),
    MultisigError,
>
    decreases ids.len(),
{
    if ids.len() == 0 {
        Ok((s, Seq::empty()))
    } else {
        match perform_each_endpoint(s, caller, ids.drop_last()) {
            Err(e) => Err(e),
            Ok((t, done)) => match perform_endpoint_outcome(t, caller, ids.last()) {
                Err(e) => Err(e),
                Ok(u) => Ok((u, done.push(t.actions[ids.last() - 1]))),
            },
        }
    }
}

/// What withdrawing the caller's signature from action `id` does: the
/// action must be pending and the caller a board member.
pub open spec fn direct_unsign_outcome(s: MultisigState, caller: Address, id: ActionId) -> Result<
    MultisigState,
    MultisigError,
> {
    if !action_exists(s, id) {
        Err(MultisigError::ActionDoesNotExist)
    } else if !role_can_sign(role_of(s, caller)) {
        Err(MultisigError::OnlyBoardMembersCanUnsign)
    } else {
        Ok(without_signer(s, id as int, user_id(s, caller)))
    }
}

/// The signing endpoints of a wallet where board members sign themselves.
pub trait MultisigSignModule {
    /// What the wallet's storage always satisfies.
    spec fn storage_ok(&self) -> bool;

    /// A board member signs an action.
    fn sign(&mut self, ctx: &TxContext, action_id: ActionId) -> (r: Result<(), MultisigError>)
        requires
            old(self).storage_ok(),
        ensures
            final(self).storage_ok(),
    ;

    /// A board member signs each of the actions, in order.
    fn sign_batch(&mut self, ctx: &TxContext, action_ids: &Vec<ActionId>) -> (r: Result<
        (),
        MultisigError,
    >)
        requires
            old(self).storage_ok(),
        ensures
            final(self).storage_ok(),
    ;

    /// A board member signs an action, then performs it.
    fn sign_and_perform(&mut self, ctx: &TxContext, action_id: ActionId) -> (r: Result<
        Action,
        MultisigError,
    >)
        requires
            old(self).storage_ok(),
        ensures
            final(self).storage_ok(),
    ;

    /// A board member signs each of the actions, then performs each of them.
    fn sign_batch_and_perform(&mut self, ctx: &TxContext, action_ids: &Vec<ActionId>) -> (r: Result<
        Vec<Action>,
        MultisigError,
    >)
        requires
            old(self).storage_ok(),
        ensures
            final(self).storage_ok(),
    ;

    /// A board member withdraws its signature from an action.
    fn unsign(&mut self, ctx: &TxContext, action_id: ActionId) -> (r: Result<(), MultisigError>)
        requires
            old(self).storage_ok(),
        ensures
            final(self).storage_ok(),
    ;

    /// Whether `user` signed the action, whether or not it may still sign.
    fn signed(&self, user: Address, action_id: ActionId) -> bool
        requires
            self.storage_ok(),
    ;
}


/// Once a signature fails, signing the whole list fails the same way.
pub proof fn lemma_direct_sign_all_failure_sticks(s: MultisigState, caller: Address, ids: Seq<ActionId>, k: int)
    requires
        0 <= k <= ids.len(),
        direct_sign_all(s, caller, ids.subrange(0, k)) is Err,
    ensures
        direct_sign_all(s, caller, ids) == direct_sign_all(s, caller, ids.subrange(0, k)),
    decreases ids.len() - k,
{
    if k < ids.len() {
        assert(ids.subrange(0, k + 1).drop_last() =~= ids.subrange(0, k));
        lemma_direct_sign_all_failure_sticks(s, caller, ids, k + 1);
    } else {
        assert(ids.subrange(0, k) =~= ids);
    }
}

/// Once a perform fails, performing the whole list fails the same way.
pub proof fn lemma_perform_each_failure_sticks(s: MultisigState, caller: Address, ids: Seq<ActionId>, k: int)
    requires
        0 <= k <= ids.len(),
        perform_each_endpoint(s, caller, ids.subrange(0, k)) is Err,
    ensures
        perform_each_endpoint(s, caller, ids) == perform_each_endpoint(s, caller, ids.subrange(0, k)),
    decreases ids.len() - k,
{
    if k < ids.len() {
        assert(ids.subrange(0, k + 1).drop_last() =~= ids.subrange(0, k));
        lemma_perform_each_failure_sticks(s, caller, ids, k + 1);
    } else {
        assert(ids.subrange(0, k) =~= ids);
    }
}

/// Signing keeps the roles, the quorum and the action table, so the
/// storage stays well formed.
proof fn lemma_with_caller_signature(s: MultisigState, caller: Address, id: ActionId)
    requires
        super::state::multisig_wf(s),
        action_exists(s, id),
        role_can_sign(role_of(s, caller)),
    ensures
        super::state::multisig_wf(with_signatures(s, id as int, seq![user_id(s, caller)])),
{
    super::check_signature::lemma_user_id_bounded(s, caller);
    let u = user_id(s, caller);
    let ids = seq![u];
    assert(ids.drop_last() =~= Seq::<u64>::empty());
    assert(insert_all(s.signers[id - 1], Seq::empty()) == s.signers[id - 1]);
    super::state::lemma_insert_value_props(s.signers[id - 1], u, 1, s.users.len() as int);
    let t = with_signatures(s, id as int, ids);
    assert forall|i: int, j: int|
        0 <= i < t.signers.len() && 0 <= j < t.signers[i].len() implies 1 <= #[trigger] t.signers[i][j]
        <= t.users.len() by {
        if i != id - 1 {
            assert(t.signers[i] == s.signers[i]);
        }
    }
    assert forall|i: int| 0 <= i < t.signers.len() implies (#[trigger] t.signers[i]).no_duplicates() by {
        if i != id - 1 {
            assert(t.signers[i] == s.signers[i]);
        }
    }
}

/// A wallet whose board members sign by calling it themselves.
pub struct DirectSignWallet {
    pub wallet: Multisig,
}

impl View for DirectSignWallet {
    type V = MultisigState;

    open spec fn view(&self) -> MultisigState {
        self.wallet@
    }
}

impl MultisigSignModule for DirectSignWallet {
    open spec fn storage_ok(&self) -> bool {
        self.wallet.wf()
    }

    fn sign(&mut self, ctx: &TxContext, action_id: ActionId) -> (r: Result<(), MultisigError>)
        ensures
            match direct_sign_outcome(old(self)@, ctx.caller, action_id) {
                Ok(t) => r is Ok && final(self)@ == t,
                Err(e) => r == Err::<(), MultisigError>(e) && final(self)@ == old(self)@,
            },
    {
        self.wallet.require_action_exists(action_id)?;
        let (caller_id, caller_role) = self.wallet.get_caller_id_and_role(ctx);
        if !caller_role.can_sign() {
            return Err(MultisigError::OnlyBoardMembersCanSign);
        }
        proof {
            lemma_with_caller_signature(self@, ctx.caller, action_id);
            super::check_signature::lemma_user_id_bounded(self@, ctx.caller);
        }
        let mut ids: Vec<u64> = Vec::new();
        ids.push(caller_id);
        proof {
            assert(ids@ =~= seq![caller_id]);
        }
        self.wallet.add_signatures(action_id, &ids);
        Ok(())
    }

    #[verifier::loop_isolation(false)]
    fn sign_batch(&mut self, ctx: &TxContext, action_ids: &Vec<ActionId>) -> (r: Result<(), MultisigError>)
        ensures
            match direct_sign_batch_outcome(old(self)@, ctx.caller, action_ids@) {
                Ok(t) => r is Ok && final(self)@ == t,
                Err(e) => r == Err::<(), MultisigError>(e) && final(self)@ == old(self)@,
            },
    {
        let (_, caller_role) = self.wallet.get_caller_id_and_role(ctx);
        if !caller_role.can_sign() {
            return Err(MultisigError::OnlyBoardMembersCanSign);
        }
        let ghost s = self@;
        let mut work = DirectSignWallet { wallet: self.wallet.duplicate() };
        let mut i: usize = 0;
        proof {
            assert(action_ids@.subrange(0, 0) =~= Seq::<ActionId>::empty());
        }
        while i < action_ids.len()
            invariant
                work.wallet.wf(),
                i <= action_ids@.len(),
                direct_sign_all(s, ctx.caller, action_ids@.subrange(0, i as int)) == Ok::<
                    MultisigState,
                    MultisigError,
                >(work@),
                work@.users == s.users,
                work@.roles == s.roles,
            decreases action_ids.len() - i,
        {
            proof {
                assert(action_ids@.subrange(0, i + 1).drop_last() =~= action_ids@.subrange(0, i as int));
            }
            if work.wallet.require_action_exists(action_ids[i]).is_err() {
                proof {
                    lemma_direct_sign_all_failure_sticks(s, ctx.caller, action_ids@, i + 1);
                }
                return Err(MultisigError::ActionDoesNotExist);
            }
            let r = MultisigSignModule::sign(&mut work, ctx, action_ids[i]);
            i = i + 1;
        }
        proof {
            assert(action_ids@.subrange(0, action_ids@.len() as int) =~= action_ids@);
        }
        *self = work;
        Ok(())
    }

    fn sign_and_perform(&mut self, ctx: &TxContext, action_id: ActionId) -> (r: Result<
        Action,
        MultisigError,
    >)
        ensures
            match direct_sign_outcome(old(self)@, ctx.caller, action_id) {
                Err(e) => r == Err::<Action, MultisigError>(e) && final(self)@ == old(self)@,
                Ok(t) => match perform_endpoint_outcome(t, ctx.caller, action_id) {
                    Ok(u) => r is Ok && r->Ok_0@ == t.actions[action_id - 1] && final(self)@ == u,
                    Err(e) => r == Err::<Action, MultisigError>(e) && final(self)@ == old(self)@,
                },
            },
    {
        let mut work = DirectSignWallet { wallet: self.wallet.duplicate() };
        MultisigSignModule::sign(&mut work, ctx, action_id)?;
        let performed = work.wallet.perform_action_endpoint(ctx, action_id)?;
        *self = work;
        Ok(performed)
    }

    #[verifier::loop_isolation(false)]
    fn sign_batch_and_perform(&mut self, ctx: &TxContext, action_ids: &Vec<ActionId>) -> (r: Result<
        Vec<Action>,
        MultisigError,
    >)
        ensures
            match direct_sign_batch_outcome(old(self)@, ctx.caller, action_ids@) {
                Err(e) => r == Err::<Vec<Action>, MultisigError>(e) && final(self)@ == old(self)@,
                Ok(t) => match perform_each_endpoint(t, ctx.caller, action_ids@) {
                    Ok((u, done)) => r is Ok && actions_view(r->Ok_0@) == done && final(self)@ == u,
                    Err(e) => r == Err::<Vec<Action>, MultisigError>(e) && final(self)@ == old(self)@,
                },
            },
    {
        let mut work = DirectSignWallet { wallet: self.wallet.duplicate() };
        MultisigSignModule::sign_batch(&mut work, ctx, action_ids)?;
        let ghost t = work@;
        let mut performed: Vec<Action> = Vec::new();
        let mut i: usize = 0;
        proof {
            assert(action_ids@.subrange(0, 0) =~= Seq::<ActionId>::empty());
            assert(actions_view(performed@) =~= Seq::<ActionModel>::empty());
        }
        while i < action_ids.len()
            invariant
                work.wallet.wf(),
                i <= action_ids@.len(),
                perform_each_endpoint(t, ctx.caller, action_ids@.subrange(0, i as int)) == Ok::<
                    (MultisigState, Seq<ActionModel>),
                    MultisigError,
                >((work@, actions_view(performed@))),
            decreases action_ids.len() - i,
        {
            proof {
                assert(action_ids@.subrange(0, i + 1).drop_last() =~= action_ids@.subrange(0, i as int));
            }
            match work.wallet.perform_action_endpoint(ctx, action_ids[i]) {
                Err(e) => {
                    proof {
                        lemma_perform_each_failure_sticks(t, ctx.caller, action_ids@, i + 1);
                    }
                    return Err(e);
                },
                Ok(a) => {
                    proof {
                        assert(actions_view(performed@.push(a)) =~= actions_view(performed@).push(a@));
                    }
                    performed.push(a);
                },
            }
            i = i + 1;
        }
        proof {
            assert(action_ids@.subrange(0, action_ids@.len() as int) =~= action_ids@);
        }
        *self = work;
        Ok(performed)
    }

    fn unsign(&mut self, ctx: &TxContext, action_id: ActionId) -> (r: Result<(), MultisigError>)
        ensures
            match direct_unsign_outcome(old(self)@, ctx.caller, action_id) {
                Ok(t) => r is Ok && final(self)@ == t,
                Err(e) => r == Err::<(), MultisigError>(e) && final(self)@ == old(self)@,
            },
    {
        self.wallet.require_action_exists(action_id)?;
        let (caller_id, caller_role) = self.wallet.get_caller_id_and_role(ctx);
        if !caller_role.can_sign() {
            return Err(MultisigError::OnlyBoardMembersCanUnsign);
        }
        self.wallet.unsign_action(action_id, caller_id)
    }

    fn signed(&self, user: Address, action_id: ActionId) -> (b: bool)
        ensures
            b == (user_id(self@, user) != 0 && signers_of(self@, action_id).contains(user_id(self@, user))),
    {
        let uid = self.wallet.get_user_id(user);
        if uid == 0 {
            return false;
        }
        let signers = self.wallet.get_action_signer_ids(action_id);
        let mut i: usize = 0;
        while i < signers.len()
            invariant
                i <= signers@.len(),
                uid == user_id(self@, user),
                uid != 0,
                signers@ == signers_of(self@, action_id),
                forall|j: int| 0 <= j < i ==> signers@[j] != uid,
            decreases signers.len() - i,
        {
            if signers[i] == uid {
                assert(signers@[i as int] == uid);
                assert(signers_of(self@, action_id)[i as int] == user_id(self@, user));
                return true;
            }
            i = i + 1;
        }
        false
    }
}

} // verus!
