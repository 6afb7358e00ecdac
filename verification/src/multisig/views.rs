//! Read-only queries on the multisig wallet.
use vstd::prelude::*;
use crate::common::Address;
use super::action::{ActionFullInfo, ActionId, ActionModel, GroupId};
use super::error::MultisigError;
use super::state::{
    group_of, pending, role_of_id, signer_addresses, Multisig, MultisigState,
};
use super::user_role::UserRole;

verus! {

/// A pending action with its id, its batch and its signers, as plain values.
pub ghost struct FullInfoModel {
    pub action_id: ActionId,
    pub group_id: GroupId,
    pub action_data: ActionModel,
    pub signers: Seq<Address>,
}

impl View for ActionFullInfo {
    type V = FullInfoModel;

    open spec fn view(&self) -> FullInfoModel {
        FullInfoModel {
            action_id: self.action_id,
            group_id: self.group_id,
            action_data: self.action_data@,
            signers: self.signers@,
        }
    }
}

pub open spec fn full_infos_view(v: Seq<ActionFullInfo>) -> Seq<FullInfoModel> {
    v.map_values(|f: ActionFullInfo| f@)
}

/// The full information on action `id`.
pub open spec fn full_info(s: MultisigState, id: ActionId) -> FullInfoModel {
    FullInfoModel {
        action_id: id,
        group_id: group_of(s, id),
        action_data: s.actions[id - 1],
        signers: signer_addresses(s, id),
    }
}

/// The full information on the pending actions among the ids from `lo`
/// up to `hi`, in order.
pub open spec fn pending_infos(s: MultisigState, lo: int, hi: int) -> Seq<FullInfoModel>
    decreases hi - lo + 1,
{
    if hi < lo {
        Seq::empty()
    } else {
        let p = pending_infos(s, lo, hi - 1);
        if pending(s, hi) {
            p.push(full_info(s, hi as ActionId))
        } else {
            p
        }
    }
}

/// What `getPendingActionFullInfo` returns: without a range, the pending
/// actions among all of them; with `(count, first)`, those among the ids
/// from `first` up to `first + count`, which must lie among the stored ids.
pub open spec fn pending_info_outcome(s: MultisigState, opt_range: Option<(usize, usize)>) -> Result<
    Seq<FullInfoModel>,
    MultisigError,
> {
    match opt_range {
        None => Ok(pending_infos(s, 1, s.actions.len() as int)),
        Some((count, first)) => if first > s.actions.len() {
            Err(MultisigError::FirstActionOutOfRange)
        } else if first + count > s.actions.len() {
            Err(MultisigError::RangeExceedsActions)
        } else if first == 0 {
            Err(MultisigError::IndexOutOfRange)
        } else {
            Ok(pending_infos(s, first as int, first + count))
        },
    }
}

/// The addresses of the users with role `r` among the first `n` users, in order.
pub open spec fn users_with_role(s: MultisigState, r: UserRole, n: int) -> Seq<Address>
    decreases n,
{
    if n <= 0 {
        Seq::empty()
    } else {
        let p = users_with_role(s, r, n - 1);
        if role_of_id(s, n as u64) == r {
            p.push(s.users[n - 1])
        } else {
            p
        }
    }
}

impl Multisig {
    /// The pending actions, each with its id, its batch and its signers; with
    /// `(count, first_action_id)`, only those among the ids from
    /// `first_action_id` up to `first_action_id + count`.
    pub fn get_pending_action_full_info(&self, opt_range: Option<(usize, usize)>) -> (r: Result<
        Vec<ActionFullInfo>,
        MultisigError,
    >)
        requires
            self.wf(),
        ensures
            match pending_info_outcome(self@, opt_range) {
                Ok(infos) => r is Ok && full_infos_view(r->Ok_0@) == infos,
                Err(e) => r == Err::<Vec<ActionFullInfo>, MultisigError>(e),
            },
    {
        let action_last_index = self.get_action_last_index();
        let mut first: usize = 1;
        let mut last: usize = action_last_index;
        if let Some((count, first_action_id)) = opt_range {
            if first_action_id > action_last_index {
                return Err(MultisigError::FirstActionOutOfRange);
            }
            if count > action_last_index - first_action_id {
                return Err(MultisigError::RangeExceedsActions);
            }
            if first_action_id == 0 {
                return Err(MultisigError::IndexOutOfRange);
            }
            first = first_action_id;
            last = first_action_id + count;
        }
        let ghost expected = pending_infos(self@, first as int, last as int);
        assert(pending_info_outcome(self@, opt_range) == Ok::<Seq<FullInfoModel>, MultisigError>(
            expected,
        ));
        let mut result: Vec<ActionFullInfo> = Vec::new();
        let mut id: usize = first;
        proof {
            assert(full_infos_view(result@) =~= pending_infos(self@, first as int, first - 1));
        }
        while id <= last
            invariant
                self.wf(),
                1 <= first <= id,
                id <= last + 1,
                last <= self@.actions.len(),
                full_infos_view(result@) == pending_infos(self@, first as int, id - 1),
                expected == pending_infos(self@, first as int, last as int),
                pending_info_outcome(self@, opt_range) == Ok::<Seq<FullInfoModel>, MultisigError>(
                    expected,
                ),
            decreases last + 1 - id,
        {
            let action = self.action_ref(id);
            if action.is_pending() {
                let info = ActionFullInfo {
                    action_id: id,
                    group_id: self.get_group_for_action(id),
                    action_data: action.duplicate(),
                    signers: self.get_action_signers(id),
                };
                proof {
                    assert(full_infos_view(result@.push(info)) =~= full_infos_view(result@).push(
                        info@,
                    ));
                }
                result.push(info);
            }
            if id == last {
                assert(full_infos_view(result@) == pending_infos(self@, first as int, id as int));
                return Ok(result);
            }
            id = id + 1;
        }
        Ok(result)
    }

    /// The addresses of the users with role `role`, in the order they were registered.
    pub fn get_all_users_with_role(&self, role: UserRole) -> (v: Vec<Address>)
        requires
            self.wf(),
        ensures
            v@ == users_with_role(self@, role, self@.users.len() as int),
    {
        let n = self.get_num_users();
        let mut out: Vec<Address> = Vec::new();
        let mut i: usize = 0;
        while i < n
            invariant
                self.wf(),
                n == self@.users.len(),
                i <= n,
                out@ == users_with_role(self@, role, i as int),
            decreases n - i,
        {
            let id = (i + 1) as u64;
            if self.get_role_of_id(id) == role {
                match self.get_user_address(id) {
                    Some(address) => {
                        out.push(address);
                    },
                    None => {},
                }
            }
            i = i + 1;
        }
        out
    }

    /// The users that can sign actions.
    pub fn get_all_board_members(&self) -> (v: Vec<Address>)
        requires
            self.wf(),
        ensures
            v@ == users_with_role(self@, UserRole::BoardMember, self@.users.len() as int),
    {
        self.get_all_users_with_role(UserRole::BoardMember)
    }

    /// The proposers that are not board members.
    pub fn get_all_proposers(&self) -> (v: Vec<Address>)
        requires
            self.wf(),
        ensures
            v@ == users_with_role(self@, UserRole::Proposer, self@.users.len() as int),
    {
        self.get_all_users_with_role(UserRole::Proposer)
    }
}

} // verus!
