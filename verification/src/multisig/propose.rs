//! Proposing actions, alone or in batches.
use vstd::prelude::*;
use crate::common::{Address, EsdtTokenPayment, TxContext};
use crate::unordered_set::insert_value;
use super::action::{
    args_view, tokens_view, Action, ActionId, ActionModel, ActionStatus, CallActionData, CallModel,
    DeployArgs, DeployModel, EsdtCallModel, EsdtTransferExecuteData, GasLimit, GroupId,
};
use super::check_signature::{check_all, lemma_check_all_shape, lemma_user_id_bounded};
use super::error::MultisigError;
use super::signature::{ActionType, SignatureArg};
use super::state::{
    actions_view, role_of, role_of_id, tables_wf, user_id, Multisig, MultisigState,
};
use super::user_role::{role_can_propose, role_can_sign, UserRole};

verus! {

/// The storage after action `a` is appended with quorum `quorum`, in batch
/// `group` (0 for none), signed by user `signer` (0 for nobody).
pub open spec fn with_action(
    s: MultisigState,
    a: ActionModel,
    quorum: usize,
    group: GroupId,
    signer: u64,
) -> MultisigState {
    MultisigState {
        actions: s.actions.push(a),
        quorum_for_action: s.quorum_for_action.push(quorum),
        group_for_action: s.group_for_action.push(group),
        signers: s.signers.push(
            if signer == 0 {
                Seq::<u64>::empty()
            } else {
                seq![signer]
            },
        ),
        ..s
    }
}

/// The user that signs a new action right away: the proposer, if it may sign.
pub open spec fn first_signer(s: MultisigState, proposer: Address) -> u64 {
    if role_can_sign(role_of(s, proposer)) {
        user_id(s, proposer)
    } else {
        0
    }
}

/// What proposing action `a` does. With a signature, the proposer is its
/// signer, whose signature for a proposal is checked and whose nonce is used
/// up; without one, the proposer is the caller. The proposer must be allowed
/// to propose. The action is appended with the current quorum, signed by the
/// proposer if it may sign. The new action's id comes back.
pub open spec fn propose_outcome(
    s: MultisigState,
    caller: Address,
    a: ActionModel,
    sig: Option<SignatureArg>,
    verified: bool,
) -> Result<(MultisigState, ActionId), MultisigError> {
    let proposer = match sig {
        Some(sg) => sg.user_address,
        None => caller,
    };
    let checked = match sig {
        Some(sg) => match check_all(s, s.nonces, seq![sg], seq![verified], ActionType::Propose) {
            Ok((_, ns)) => Ok(ns),
            Err(e) => Err(e),
        },
        None => Ok(s.nonces),
    };
    match checked {
        Err(e) => Err(e),
        Ok(ns) => {
            if !role_can_propose(role_of(s, proposer)) {
                Err(MultisigError::OnlyProposersCanPropose)
            } else if s.actions.len() >= usize::MAX {
                Err(MultisigError::ArithmeticOverflow)
            } else {
                Ok(
                    (
                        with_action(
                            MultisigState { nonces: ns, ..s },
                            a,
                            s.quorum,
                            0,
                            first_signer(s, proposer),
                        ),
                        (s.actions.len() + 1) as ActionId,
                    ),
                )
            }
        },
    }
}

/// Why an action may not go into a batch, if it may not: an empty action,
/// an asynchronous call and an upgrade are refused, a transfer must carry
/// something, and it must go to the wallet's own shard.
pub open spec fn batch_action_error(a: ActionModel, own_shard: u32, dest_shard: u32) -> Option<
    MultisigError,
> {
    match a {
        ActionModel::Nothing => Some(MultisigError::InvalidAction),
        ActionModel::SendAsyncCall(_) => Some(MultisigError::InvalidAction),
        ActionModel::SCUpgradeFromSource { .. } => Some(MultisigError::InvalidAction),
        ActionModel::SendTransferExecuteEgld(c) => if c.egld_amount == 0 && c.endpoint_name.len()
            == 0 {
            Some(MultisigError::ActionHasNoEffect)
        } else if own_shard != dest_shard {
            Some(MultisigError::NotSameShard)
        } else {
            None
        },
        ActionModel::SendTransferExecuteEsdt(c) => if c.tokens.len() == 0 {
            Some(MultisigError::NoTokensToTransfer)
        } else if own_shard != dest_shard {
            Some(MultisigError::NotSameShard)
        } else {
            None
        },
        _ => None,
    }
}

/// The first refusal among the actions of a batch, in order.
pub open spec fn batch_error(actions: Seq<ActionModel>, own_shard: u32, dest_shards: Seq<u32>) -> Option<
    MultisigError,
>
    decreases actions.len(),
{
    if actions.len() == 0 {
        None
    } else {
        match batch_error(actions.drop_last(), own_shard, dest_shards.drop_last()) {
            Some(e) => Some(e),
            None => batch_action_error(actions.last(), own_shard, dest_shards.last()),
        }
    }
}

/// The storage after the actions are appended, in order, to batch `g`,
/// each signed by `signer` (0 for nobody) and with quorum 0.
pub open spec fn with_batch_actions(
    s: MultisigState,
    actions: Seq<ActionModel>,
    g: GroupId,
    signer: u64,
) -> MultisigState
    decreases actions.len(),
{
    if actions.len() == 0 {
        s
    } else {
        let t = with_batch_actions(s, actions.drop_last(), g, signer);
        let u = with_action(t, actions.last(), 0, g, signer);
        MultisigState {
            groups: u.groups.update(g - 1, insert_value(u.groups[g - 1], (t.actions.len() + 1) as u64)),
            ..u
        }
    }
}

/// What `proposeBatch` does: the batch must not be empty, the caller must be
/// allowed to propose, and every action must be acceptable in a batch. A new
/// batch is opened and the actions are appended to it, each signed by the
/// caller if it may sign. Actions of a batch are stored with quorum 0; whether an action reached its quorum is judged against the wallet's quorum. The new
/// batch's id comes back.
pub open spec fn propose_batch_outcome(
    s: MultisigState,
    caller: Address,
    own_shard: u32,
    actions: Seq<ActionModel>,
    dest_shards: Seq<u32>,
) -> Result<(MultisigState, GroupId), MultisigError> {
    if s.groups.len() >= usize::MAX {
        Err(MultisigError::ArithmeticOverflow)
    } else if actions.len() == 0 {
        Err(MultisigError::NoActions)
    } else if !role_can_propose(role_of(s, caller)) {
        Err(MultisigError::OnlyProposersCanPropose)
    } else if batch_error(actions, own_shard, dest_shards) is Some {
        Err(batch_error(actions, own_shard, dest_shards)->Some_0)
    } else if s.actions.len() + actions.len() > usize::MAX {
        Err(MultisigError::ArithmeticOverflow)
    } else {
        let g = (s.groups.len() + 1) as GroupId;
        let opened = MultisigState {
            groups: s.groups.push(Seq::empty()),
            group_status: s.group_status.push(ActionStatus::Available),
            ..s
        };
        Ok((with_batch_actions(opened, actions, g, first_signer(s, caller)), g))
    }
}


/// Whether `r` and the storage `t` after a proposal are what `outcome`
/// describes for the storage `s` before it.
pub open spec fn proposal_done(
    s: MultisigState,
    t: MultisigState,
    r: Result<ActionId, MultisigError>,
    outcome: Result<(MultisigState, ActionId), MultisigError>,
) -> bool {
    match outcome {
        Ok((u, id)) => r == Ok::<ActionId, MultisigError>(id) && t == u,
        Err(e) => r == Err::<ActionId, MultisigError>(e) && t == s,
    }
}

/// Once one action of a batch is refused, the batch is refused the same way.
pub proof fn lemma_batch_error_sticks(
    actions: Seq<ActionModel>,
    own_shard: u32,
    dest_shards: Seq<u32>,
    k: int,
)
    requires
        0 <= k <= actions.len(),
        actions.len() == dest_shards.len(),
        batch_error(actions.subrange(0, k), own_shard, dest_shards.subrange(0, k)) is Some,
    ensures
        batch_error(actions, own_shard, dest_shards) == batch_error(
            actions.subrange(0, k),
            own_shard,
            dest_shards.subrange(0, k),
        ),
    decreases actions.len() - k,
{
    if k < actions.len() {
        assert(actions.subrange(0, k + 1).drop_last() =~= actions.subrange(0, k));
        assert(dest_shards.subrange(0, k + 1).drop_last() =~= dest_shards.subrange(0, k));
        lemma_batch_error_sticks(actions, own_shard, dest_shards, k + 1);
    } else {
        assert(actions.subrange(0, k) =~= actions);
        assert(dest_shards.subrange(0, k) =~= dest_shards);
    }
}

impl Multisig {
    /// Proposes `action`. With a signature, its signer is the proposer and
    /// `verified` is what the virtual machine's verification of the signature
    /// over the proposal reported; without one, the caller is the proposer.
    /// The proposer signs the new action right away if it may sign.
    pub fn propose_action(
        &mut self,
        ctx: &TxContext,
        action: Action,
        opt_signature: Option<SignatureArg>,
        verified: bool,
    ) -> (r: Result<ActionId, MultisigError>)
        requires
            old(self).wf(),
        ensures
            final(self).wf(),
            proposal_done(
                old(self)@,
                final(self)@,
                r,
                propose_outcome(old(self)@, ctx.caller, action@, opt_signature, verified),
            ),
    {
        let ghost s = self@;
        let ghost opt = opt_signature;
        let proposer: Address;
        let nonces: Vec<u64>;
        match opt_signature {
            Some(sig) => {
                proposer = sig.user_address;
                let ghost g = sig;
                let mut sigs: Vec<SignatureArg> = Vec::new();
                sigs.push(sig);
                let mut verdicts: Vec<bool> = Vec::new();
                verdicts.push(verified);
                proof {
                    assert(sigs@ =~= seq![g]);
                    assert(verdicts@ =~= seq![verified]);
                }
                let (_, ns) = self.check_signatures(&sigs, &verdicts, ActionType::Propose)?;
                proof {
                    lemma_check_all_shape(s, s.nonces, sigs@, verdicts@, ActionType::Propose);
                }
                nonces = ns;
            },
            None => {
                proposer = ctx.caller;
                nonces = self.nonces_copy();
            },
        }
        let (proposer_id, proposer_role) = self.get_id_and_role(proposer);
        proposer_role.require_can_propose()?;
        if !self.can_push_action() {
            return Err(MultisigError::ArithmeticOverflow);
        }
        let quorum = self.get_quorum();
        proof {
            lemma_user_id_bounded(s, proposer);
        }
        self.set_nonces(nonces);
        let signer = if proposer_role.can_sign() {
            proposer_id
        } else {
            0
        };
        let action_id = self.push_action(action, quorum, 0, signer);
        Ok(action_id)
    }

    /// Fails with "Invalid action" on an empty action, an asynchronous call
    /// and an upgrade, which may not go into a batch.
    pub fn require_valid_action_type(&self, action: &Action) -> (r: Result<(), MultisigError>)
        ensures
            r is Err <==> (action@ is Nothing || action@ is SendAsyncCall
                || action@ is SCUpgradeFromSource),
            r is Err ==> r == Err::<(), MultisigError>(MultisigError::InvalidAction),
    {
        if action.is_nothing() || action.is_async_call() || action.is_sc_upgrade() {
            return Err(MultisigError::InvalidAction);
        }
        Ok(())
    }

    /// A transfer in a batch must carry something and go to the wallet's own
    /// shard; `dest_shard` is the shard of its destination.
    pub fn ensure_valid_transfer_action(
        &self,
        ctx: &TxContext,
        action: &Action,
        dest_shard: u32,
    ) -> (r: Result<(), MultisigError>)
        ensures
            !(action@ is Nothing || action@ is SendAsyncCall || action@ is SCUpgradeFromSource)
                ==> match batch_action_error(action@, ctx.contract_shard, dest_shard) {
                Some(e) => r == Err::<(), MultisigError>(e),
                None => r is Ok,
            },
            action@ is Nothing || action@ is SendAsyncCall || action@ is SCUpgradeFromSource ==> r is Ok,
    {
        match action {
            Action::SendTransferExecuteEgld(call_data) => {
                if call_data.egld_amount == 0 && call_data.endpoint_name.len() == 0 {
                    return Err(MultisigError::ActionHasNoEffect);
                }
                if ctx.contract_shard != dest_shard {
                    return Err(MultisigError::NotSameShard);
                }
                Ok(())
            },
            Action::SendTransferExecuteEsdt(call_data) => {
                if call_data.tokens.len() == 0 {
                    return Err(MultisigError::NoTokensToTransfer);
                }
                if ctx.contract_shard != dest_shard {
                    return Err(MultisigError::NotSameShard);
                }
                Ok(())
            },
            _ => Ok(()),
        }
    }

    /// Proposes a batch of actions, which are performed together;
    /// `dest_shards[i]` is the shard of the destination of `actions[i]`.
    #[verifier::loop_isolation(false)]
    pub fn propose_batch(&mut self, ctx: &TxContext, actions: Vec<Action>, dest_shards: &Vec<u32>) -> (r:
        Result<GroupId, MultisigError>)
        requires
            old(self).wf(),
            dest_shards@.len() == actions@.len(),
        ensures
            final(self).wf(),
            match propose_batch_outcome(
                old(self)@,
                ctx.caller,
                ctx.contract_shard,
                actions_view(actions@),
                dest_shards@,
            ) {
                Ok((t, g)) => r == Ok::<GroupId, MultisigError>(g) && final(self)@ == t,
                Err(e) => r == Err::<GroupId, MultisigError>(e) && final(self)@ == old(self)@,
            },
    {
        let ghost s = self@;
        let ghost acts = actions_view(actions@);
        if !self.can_push_group() {
            return Err(MultisigError::ArithmeticOverflow);
        }
        if actions.len() == 0 {
            return Err(MultisigError::NoActions);
        }
        let (caller_id, caller_role) = self.get_caller_id_and_role(ctx);
        caller_role.require_can_propose()?;
        let mut i: usize = 0;
        proof {
            assert(acts.subrange(0, 0) =~= Seq::<ActionModel>::empty());
            assert(dest_shards@.subrange(0, 0) =~= Seq::<u32>::empty());
        }
        while i < actions.len()
            invariant
                self@ == s,
                i <= actions@.len(),
                batch_error(acts.subrange(0, i as int), ctx.contract_shard, dest_shards@.subrange(0, i as int)) is None,
            decreases actions.len() - i,
        {
            proof {
                assert(acts.subrange(0, i + 1).drop_last() =~= acts.subrange(0, i as int));
                assert(dest_shards@.subrange(0, i + 1).drop_last() =~= dest_shards@.subrange(0, i as int));
                assert(acts.subrange(0, i + 1).last() == actions@[i as int]@);
            }
            let checked = self.require_valid_action_type(&actions[i]);
            let checked = match checked {
                Ok(_) => self.ensure_valid_transfer_action(ctx, &actions[i], dest_shards[i]),
                Err(e) => Err(e),
            };
            if let Err(e) = checked {
                proof {
                    lemma_batch_error_sticks(acts, ctx.contract_shard, dest_shards@, i + 1);
                }
                return Err(e);
            }
            i = i + 1;
        }
        proof {
            assert(acts.subrange(0, actions@.len() as int) =~= acts);
            assert(dest_shards@.subrange(0, actions@.len() as int) =~= dest_shards@);
        }
        if actions.len() > usize::MAX - self.get_action_last_index() {
            return Err(MultisigError::ArithmeticOverflow);
        }
        proof {
            lemma_user_id_bounded(s, ctx.caller);
        }
        let signer = if caller_role.can_sign() {
            caller_id
        } else {
            0
        };
        let group_id = self.new_group();
        let ghost opened = self@;
        let mut j: usize = 0;
        proof {
            assert(acts.subrange(0, 0) =~= Seq::<ActionModel>::empty());
        }
        while j < actions.len()
            invariant
                self.wf(),
                j <= actions@.len(),
                group_id == s.groups.len() + 1,
                self@ == with_batch_actions(opened, acts.subrange(0, j as int), group_id, signer),
                self@.actions.len() == s.actions.len() + j,
                self@.groups.len() == s.groups.len() + 1,
                self@.users == s.users,
            decreases actions.len() - j,
        {
            proof {
                assert(acts.subrange(0, j + 1).drop_last() =~= acts.subrange(0, j as int));
                assert(acts.subrange(0, j + 1).last() == actions@[j as int]@);
            }
            let ghost before = self@;
            let a = actions[j].duplicate();
            let id = self.push_action(a, 0, group_id, signer);
            self.add_to_group(group_id, id);
            proof {
                assert(self@.group_for_action =~= before.group_for_action.push(group_id));
            }
            j = j + 1;
        }
        proof {
            assert(acts.subrange(0, actions@.len() as int) =~= acts);
        }
        Ok(group_id)
    }

    /// Proposes to add a board member; also promotes a proposer.
    pub fn propose_add_board_member(
        &mut self,
        ctx: &TxContext,
        board_member_address: Address,
        opt_signature: Option<SignatureArg>,
        verified: bool,
    ) -> (r: Result<ActionId, MultisigError>)
        requires
            old(self).wf(),
        ensures
            final(self).wf(),
            proposal_done(
                old(self)@,
                final(self)@,
                r,
                propose_outcome(
                    old(self)@,
                    ctx.caller,
                    ActionModel::AddBoardMember(board_member_address),
                    opt_signature,
                    verified,
                ),
            ),
    {
        self.propose_action(ctx, Action::AddBoardMember(board_member_address), opt_signature, verified)
    }

    /// Proposes to add a proposer; also demotes a board member.
    pub fn propose_add_proposer(
        &mut self,
        ctx: &TxContext,
        proposer_address: Address,
        opt_signature: Option<SignatureArg>,
        verified: bool,
    ) -> (r: Result<ActionId, MultisigError>)
        requires
            old(self).wf(),
        ensures
            final(self).wf(),
            proposal_done(
                old(self)@,
                final(self)@,
                r,
                propose_outcome(
                    old(self)@,
                    ctx.caller,
                    ActionModel::AddProposer(proposer_address),
                    opt_signature,
                    verified,
                ),
            ),
    {
        self.propose_action(ctx, Action::AddProposer(proposer_address), opt_signature, verified)
    }

    /// Proposes to remove a user, whether board member or proposer.
    pub fn propose_remove_user(
        &mut self,
        ctx: &TxContext,
        user_address: Address,
        opt_signature: Option<SignatureArg>,
        verified: bool,
    ) -> (r: Result<ActionId, MultisigError>)
        requires
            old(self).wf(),
        ensures
            final(self).wf(),
            proposal_done(
                old(self)@,
                final(self)@,
                r,
                propose_outcome(
                    old(self)@,
                    ctx.caller,
                    ActionModel::RemoveUser(user_address),
                    opt_signature,
                    verified,
                ),
            ),
    {
        self.propose_action(ctx, Action::RemoveUser(user_address), opt_signature, verified)
    }

    /// Proposes a new quorum.
    pub fn propose_change_quorum(
        &mut self,
        ctx: &TxContext,
        new_quorum: usize,
        opt_signature: Option<SignatureArg>,
        verified: bool,
    ) -> (r: Result<ActionId, MultisigError>)
        requires
            old(self).wf(),
        ensures
            final(self).wf(),
            proposal_done(
                old(self)@,
                final(self)@,
                r,
                propose_outcome(
                    old(self)@,
                    ctx.caller,
                    ActionModel::ChangeQuorum(new_quorum),
                    opt_signature,
                    verified,
                ),
            ),
    {
        self.propose_action(ctx, Action::ChangeQuorum(new_quorum), opt_signature, verified)
    }

    /// Proposes a transfer-execute call: it sends EGLD, calls an endpoint
    /// (`endpoint_name` with `arguments`), or both; it must do one of them.
    pub fn propose_transfer_execute(
        &mut self,
        ctx: &TxContext,
        to: Address,
        egld_amount: u128,
        opt_gas_limit: Option<GasLimit>,
        endpoint_name: Vec<u8>,
        arguments: Vec<Vec<u8>>,
        opt_signature: Option<SignatureArg>,
        verified: bool,
    ) -> (r: Result<ActionId, MultisigError>)
        requires
            old(self).wf(),
        ensures
            final(self).wf(),
            egld_amount == 0 && endpoint_name@.len() == 0 ==> r == Err::<ActionId, MultisigError>(
                MultisigError::ActionHasNoEffect,
            ) && final(self)@ == old(self)@,
            !(egld_amount == 0 && endpoint_name@.len() == 0) ==> proposal_done(
                old(self)@,
                final(self)@,
                r,
                propose_outcome(
                    old(self)@,
                    ctx.caller,
                    ActionModel::SendTransferExecuteEgld(
                        (CallModel {
                            to,
                            egld_amount,
                            opt_gas_limit,
                            endpoint_name: endpoint_name@,
                            arguments: args_view(arguments@),
                        }),
                    ),
                    opt_signature,
                    verified,
                ),
            ),
    {
        if egld_amount == 0 && endpoint_name.len() == 0 {
            return Err(MultisigError::ActionHasNoEffect);
        }
        let call_data = CallActionData { to, egld_amount, opt_gas_limit, endpoint_name, arguments };
        self.propose_action(ctx, Action::SendTransferExecuteEgld(call_data), opt_signature, verified)
    }

    /// Proposes a transfer of ESDT tokens, with an optional endpoint call.
    pub fn propose_transfer_execute_esdt(
        &mut self,
        ctx: &TxContext,
        to: Address,
        tokens: Vec<EsdtTokenPayment>,
        opt_gas_limit: Option<GasLimit>,
        endpoint_name: Vec<u8>,
        arguments: Vec<Vec<u8>>,
        opt_signature: Option<SignatureArg>,
        verified: bool,
    ) -> (r: Result<ActionId, MultisigError>)
        requires
            old(self).wf(),
        ensures
            final(self).wf(),
            tokens@.len() == 0 ==> r == Err::<ActionId, MultisigError>(
                MultisigError::NoTokensToTransfer,
            ) && final(self)@ == old(self)@,
            tokens@.len() != 0 ==> proposal_done(
                old(self)@,
                final(self)@,
                r,
                propose_outcome(
                    old(self)@,
                    ctx.caller,
                    ActionModel::SendTransferExecuteEsdt(
                        (EsdtCallModel {
                            to,
                            tokens: tokens_view(tokens@),
                            opt_gas_limit,
                            endpoint_name: endpoint_name@,
                            arguments: args_view(arguments@),
                        }),
                    ),
                    opt_signature,
                    verified,
                ),
            ),
    {
        if tokens.len() == 0 {
            return Err(MultisigError::NoTokensToTransfer);
        }
        let call_data = EsdtTransferExecuteData { to, tokens, opt_gas_limit, endpoint_name, arguments };
        self.propose_action(ctx, Action::SendTransferExecuteEsdt(call_data), opt_signature, verified)
    }

    /// Proposes an asynchronous call, which may also carry EGLD; it must
    /// send EGLD or call an endpoint.
    pub fn propose_async_call(
        &mut self,
        ctx: &TxContext,
        to: Address,
        egld_amount: u128,
        opt_gas_limit: Option<GasLimit>,
        endpoint_name: Vec<u8>,
        arguments: Vec<Vec<u8>>,
        opt_signature: Option<SignatureArg>,
        verified: bool,
    ) -> (r: Result<ActionId, MultisigError>)
        requires
            old(self).wf(),
        ensures
            final(self).wf(),
            egld_amount == 0 && endpoint_name@.len() == 0 ==> r == Err::<ActionId, MultisigError>(
                MultisigError::ActionHasNoEffect,
            ) && final(self)@ == old(self)@,
            !(egld_amount == 0 && endpoint_name@.len() == 0) ==> proposal_done(
                old(self)@,
                final(self)@,
                r,
                propose_outcome(
                    old(self)@,
                    ctx.caller,
                    ActionModel::SendAsyncCall(
                        (CallModel {
                            to,
                            egld_amount,
                            opt_gas_limit,
                            endpoint_name: endpoint_name@,
                            arguments: args_view(arguments@),
                        }),
                    ),
                    opt_signature,
                    verified,
                ),
            ),
    {
        if egld_amount == 0 && endpoint_name.len() == 0 {
            return Err(MultisigError::ActionHasNoEffect);
        }
        let call_data = CallActionData { to, egld_amount, opt_gas_limit, endpoint_name, arguments };
        self.propose_action(ctx, Action::SendAsyncCall(call_data), opt_signature, verified)
    }

    /// Proposes deploying a contract from the code of contract `source`.
    pub fn propose_sc_deploy_from_source(
        &mut self,
        ctx: &TxContext,
        amount: u128,
        source: Address,
        code_metadata: u16,
        opt_signature: Option<SignatureArg>,
        verified: bool,
        arguments: Vec<Vec<u8>>,
    ) -> (r: Result<ActionId, MultisigError>)
        requires
            old(self).wf(),
        ensures
            final(self).wf(),
            proposal_done(
                old(self)@,
                final(self)@,
                r,
                propose_outcome(
                    old(self)@,
                    ctx.caller,
                    ActionModel::SCDeployFromSource(
                        (DeployModel { amount, source, code_metadata, arguments: args_view(arguments@) }),
                    ),
                    opt_signature,
                    verified,
                ),
            ),
    {
        let args = DeployArgs { amount, source, code_metadata, arguments };
        self.propose_action(ctx, Action::SCDeployFromSource(args), opt_signature, verified)
    }

    /// Proposes upgrading contract `sc_address` with the code of contract `source`.
    pub fn propose_sc_upgrade_from_source(
        &mut self,
        ctx: &TxContext,
        sc_address: Address,
        amount: u128,
        source: Address,
        code_metadata: u16,
        opt_signature: Option<SignatureArg>,
        verified: bool,
        arguments: Vec<Vec<u8>>,
    ) -> (r: Result<ActionId, MultisigError>)
        requires
            old(self).wf(),
        ensures
            final(self).wf(),
            proposal_done(
                old(self)@,
                final(self)@,
                r,
                propose_outcome(
                    old(self)@,
                    ctx.caller,
                    ActionModel::SCUpgradeFromSource {
                        sc_address,
                        args: (DeployModel {
                            amount,
                            source,
                            code_metadata,
                            arguments: args_view(arguments@),
                        }),
                    },
                    opt_signature,
                    verified,
                ),
            ),
    {
        let args = DeployArgs { amount, source, code_metadata, arguments };
        self.propose_action(
            ctx,
            Action::SCUpgradeFromSource { sc_address, args },
            opt_signature,
            verified,
        )
    }
}

} // verus!
