//! The storage of the multisig wallet, its plain-value model, and the
//! functions shared by its endpoints.
use vstd::prelude::*;
use crate::common::Address;
use crate::unordered_set::{insert_value, remove_value, UnorderedSet};
use super::action::{Action, ActionId, ActionModel, ActionStatus, GroupId, Nonce};
use crate::common::copy_vec;
use super::error::MultisigError;
use super::external_module::{no_modules, ModuleRegistry, ModulesView};
use super::user_role::{role_can_sign, UserRole};

verus! {

/// The largest board the wallet accepts.
pub const MAX_BOARD_MEMBERS: usize = 30;

/// The number of users with role `r`.
pub open spec fn count_role(roles: Seq<UserRole>, r: UserRole) -> nat
    decreases roles.len(),
{
    if roles.len() == 0 {
        0
    } else {
        count_role(roles.drop_last(), r) + if roles.last() == r {
            1nat
        } else {
            0nat
        }
    }
}

pub proof fn lemma_count_role_push(roles: Seq<UserRole>, x: UserRole, r: UserRole)
    ensures
        count_role(roles.push(x), r) == count_role(roles, r) + if x == r {
            1nat
        } else {
            0nat
        },
{
    assert(roles.push(x).drop_last() =~= roles);
}

pub proof fn lemma_count_role_bounded(roles: Seq<UserRole>, r: UserRole)
    ensures
        count_role(roles, r) <= roles.len(),
    decreases roles.len(),
{
    if roles.len() > 0 {
        lemma_count_role_bounded(roles.drop_last(), r);
    }
}

pub proof fn lemma_count_role_pos(roles: Seq<UserRole>, i: int, r: UserRole)
    requires
        0 <= i < roles.len(),
        roles[i] == r,
    ensures
        count_role(roles, r) >= 1,
    decreases roles.len(),
{
    if i < roles.len() - 1 {
        lemma_count_role_pos(roles.drop_last(), i, r);
    }
}

pub proof fn lemma_count_role_update(roles: Seq<UserRole>, i: int, x: UserRole, r: UserRole)
    requires
        0 <= i < roles.len(),
    ensures
        count_role(roles.update(i, x), r) + (if roles[i] == r {
            1nat
        } else {
            0nat
        }) == count_role(roles, r) + (if x == r {
            1nat
        } else {
            0nat
        }),
    decreases roles.len(),
{
    let u = roles.update(i, x);
    if i == roles.len() - 1 {
        assert(u.drop_last() =~= roles.drop_last());
    } else {
        assert(u.drop_last() =~= roles.drop_last().update(i, x));
        lemma_count_role_update(roles.drop_last(), i, x, r);
    }
}

/// The wallet's storage as plain values. Users, actions and batches are
/// numbered from 1; the item numbered `n` sits at position `n - 1`.
pub ghost struct MultisigState {
    pub quorum: usize,
    pub users: Seq<Address>,
    pub roles: Seq<UserRole>,
    pub nonces: Seq<Nonce>,
    pub num_board_members: usize,
    pub num_proposers: usize,
    /// Performed and discarded actions are `Nothing`.
    pub actions: Seq<ActionModel>,
    pub quorum_for_action: Seq<usize>,
    pub group_for_action: Seq<GroupId>,
    /// The ids of the users that signed each action.
    pub signers: Seq<Seq<u64>>,
    /// The ids of the actions of each batch.
    pub groups: Seq<Seq<u64>>,
    pub group_status: Seq<ActionStatus>,
    /// The external modules.
    pub modules: ModulesView,
}

/// The id of `address`, or 0 for an unknown address.
pub open spec fn user_id(s: MultisigState, address: Address) -> u64 {
    if s.users.contains(address) {
        (s.users.index_of(address) + 1) as u64
    } else {
        0
    }
}

/// The role of the user with id `id`; unknown ids have no role.
pub open spec fn role_of_id(s: MultisigState, id: u64) -> UserRole {
    if 1 <= id <= s.roles.len() {
        s.roles[id - 1]
    } else {
        UserRole::NoRole
    }
}

pub open spec fn role_of(s: MultisigState, address: Address) -> UserRole {
    role_of_id(s, user_id(s, address))
}

pub open spec fn in_actions(s: MultisigState, id: ActionId) -> bool {
    1 <= id <= s.actions.len()
}

/// An action is pending when it was proposed and not yet performed or discarded.
pub open spec fn action_exists(s: MultisigState, id: ActionId) -> bool {
    pending(s, id as int)
}

/// The action numbered `x` is pending.
pub open spec fn pending(s: MultisigState, x: int) -> bool {
    1 <= x <= s.actions.len() && !(s.actions[x - 1] is Nothing)
}

pub open spec fn signers_of(s: MultisigState, id: ActionId) -> Seq<u64> {
    if in_actions(s, id) {
        s.signers[id - 1]
    } else {
        Seq::empty()
    }
}

pub open spec fn group_of(s: MultisigState, id: ActionId) -> GroupId {
    if in_actions(s, id) {
        s.group_for_action[id - 1]
    } else {
        0
    }
}

pub open spec fn quorum_of(s: MultisigState, id: ActionId) -> usize {
    if in_actions(s, id) {
        s.quorum_for_action[id - 1]
    } else {
        0
    }
}

pub open spec fn group_members(s: MultisigState, g: GroupId) -> Seq<u64> {
    if 1 <= g <= s.groups.len() {
        s.groups[g - 1]
    } else {
        Seq::empty()
    }
}

/// A batch that was never created reads as available.
pub open spec fn group_status_of(s: MultisigState, g: GroupId) -> ActionStatus {
    if 1 <= g <= s.group_status.len() {
        s.group_status[g - 1]
    } else {
        ActionStatus::Available
    }
}

/// How many of `ids` belong to users that may still sign.
pub open spec fn valid_signer_count(s: MultisigState, ids: Seq<u64>) -> nat
    decreases ids.len(),
{
    if ids.len() == 0 {
        0
    } else {
        valid_signer_count(s, ids.drop_last()) + if role_can_sign(role_of_id(s, ids.last())) {
            1nat
        } else {
            0nat
        }
    }
}

pub proof fn lemma_valid_signer_count_bounded(s: MultisigState, ids: Seq<u64>)
    ensures
        valid_signer_count(s, ids) <= ids.len(),
    decreases ids.len(),
{
    if ids.len() > 0 {
        lemma_valid_signer_count_bounded(s, ids.drop_last());
    }
}

/// The storage of a wallet whose users are `board`, all board members, in
/// that order, with quorum `quorum` and no action yet.
pub open spec fn initial_state(quorum: usize, board: Seq<Address>) -> MultisigState {
    MultisigState {
        quorum,
        users: board,
        roles: Seq::new(board.len(), |i: int| UserRole::BoardMember),
        nonces: Seq::new(board.len(), |i: int| 0u64),
        num_board_members: board.len() as usize,
        num_proposers: 0,
        actions: Seq::empty(),
        quorum_for_action: Seq::empty(),
        group_for_action: Seq::empty(),
        signers: Seq::empty(),
        groups: Seq::empty(),
        group_status: Seq::empty(),
        modules: no_modules(),
    }
}

/// The addresses of the users that signed action `id`, in signing order.
pub open spec fn signer_addresses(s: MultisigState, id: ActionId) -> Seq<Address> {
    signers_of(s, id).map_values(|u: u64| s.users[u - 1])
}

/// Whether the action's signers that may still sign are at least the
/// wallet's quorum.
pub open spec fn quorum_is_reached(s: MultisigState, id: ActionId) -> bool {
    valid_signer_count(s, signers_of(s, id)) >= s.quorum
}

/// What the storage always satisfies: the quorum never exceeds the board,
/// someone can always propose, and the tables are consistent.
pub open spec fn multisig_wf(s: MultisigState) -> bool {
    &&& tables_wf(s)
    &&& s.quorum <= s.num_board_members
    &&& s.num_board_members + s.num_proposers > 0
}

/// The tables are consistent: the per-user and per-action tables have one
/// entry each, no address is registered twice, the board and proposer
/// counters count the roles, and the signer and batch entries refer to
/// existing users and actions.
pub open spec fn tables_wf(s: MultisigState) -> bool {
    &&& s.roles.len() == s.users.len()
    &&& s.nonces.len() == s.users.len()
    &&& s.users.no_duplicates()
    &&& s.users.len() < u64::MAX
    &&& s.users.len() < usize::MAX
    &&& s.num_board_members == count_role(s.roles, UserRole::BoardMember)
    &&& s.num_proposers == count_role(s.roles, UserRole::Proposer)
    &&& s.actions.len() <= usize::MAX
    &&& s.groups.len() <= usize::MAX
    &&& s.quorum_for_action.len() == s.actions.len()
    &&& s.group_for_action.len() == s.actions.len()
    &&& s.signers.len() == s.actions.len()
    &&& s.group_status.len() == s.groups.len()
    &&& forall|i: int, j: int|
        0 <= i < s.signers.len() && 0 <= j < s.signers[i].len() ==> 1 <= #[trigger] s.signers[i][j]
            <= s.users.len()
    &&& forall|i: int| 0 <= i < s.signers.len() ==> (#[trigger] s.signers[i]).no_duplicates()
    &&& forall|i: int| 0 <= i < s.groups.len() ==> (#[trigger] s.groups[i]).no_duplicates()
    &&& forall|i: int|
        0 <= i < s.group_for_action.len() ==> #[trigger] s.group_for_action[i] <= s.groups.len()
    &&& forall|g: int, j: int|
        0 <= g < s.groups.len() && 0 <= j < s.groups[g].len() ==> 1 <= #[trigger] s.groups[g][j]
            <= s.actions.len()
}


/// The storage after action `id` is cleared: the action becomes `Nothing`,
/// its signatures are dropped, and it leaves its batch.
pub open spec fn cleared(s: MultisigState, id: ActionId) -> MultisigState {
    if !in_actions(s, id) {
        s
    } else {
        let g = s.group_for_action[id - 1];
        MultisigState {
            actions: s.actions.update(id - 1, ActionModel::Nothing),
            signers: s.signers.update(id - 1, Seq::empty()),
            groups: if g != 0 {
                s.groups.update(g - 1, remove_value(s.groups[g - 1], id as u64))
            } else {
                s.groups
            },
            group_for_action: if g != 0 {
                s.group_for_action.update(id - 1, 0)
            } else {
                s.group_for_action
            },
            ..s
        }
    }
}

/// The storage after `address` is given role `r`: an unknown address is
/// registered first, unless it is only being removed.
pub open spec fn change_role(s: MultisigState, address: Address, r: UserRole) -> MultisigState {
    let id = user_id(s, address);
    if r == UserRole::NoRole && id == 0 {
        s
    } else {
        let s1 = if id == 0 {
            MultisigState {
                users: s.users.push(address),
                roles: s.roles.push(UserRole::NoRole),
                nonces: s.nonces.push(0),
                ..s
            }
        } else {
            s
        };
        let idx = user_id(s1, address) - 1;
        let old_role = s1.roles[idx];
        MultisigState {
            roles: s1.roles.update(idx, r),
            num_board_members: (s1.num_board_members - (if old_role == UserRole::BoardMember {
                1int
            } else {
                0int
            }) + (if r == UserRole::BoardMember {
                1int
            } else {
                0int
            })) as usize,
            num_proposers: (s1.num_proposers - (if old_role == UserRole::Proposer {
                1int
            } else {
                0int
            }) + (if r == UserRole::Proposer {
                1int
            } else {
                0int
            })) as usize,
            ..s1
        }
    }
}

/// Whether giving `address` role `r` would need a new user id that does not fit.
pub open spec fn change_role_overflows(s: MultisigState, address: Address, r: UserRole) -> bool {
    !(r == UserRole::NoRole) && user_id(s, address) == 0 && (s.users.len() + 1 >= u64::MAX
        || s.users.len() + 1 >= usize::MAX)
}

/// `s` with each of `ids` added, in order, unless already there.
pub open spec fn insert_all(s: Seq<u64>, ids: Seq<u64>) -> Seq<u64>
    decreases ids.len(),
{
    if ids.len() == 0 {
        s
    } else {
        insert_value(insert_all(s, ids.drop_last()), ids.last())
    }
}

/// `s` with each of `ids` removed, in order.
pub open spec fn remove_all(s: Seq<u64>, ids: Seq<u64>) -> Seq<u64>
    decreases ids.len(),
{
    if ids.len() == 0 {
        s
    } else {
        remove_value(remove_all(s, ids.drop_last()), ids.last())
    }
}

pub proof fn lemma_insert_value_props(s: Seq<u64>, x: u64, lo: int, hi: int)
    requires
        s.no_duplicates(),
        forall|j: int| 0 <= j < s.len() ==> lo <= #[trigger] s[j] <= hi,
        lo <= x <= hi,
    ensures
        insert_value(s, x).no_duplicates(),
        forall|j: int| 0 <= j < insert_value(s, x).len() ==> lo <= #[trigger] insert_value(s, x)[j] <= hi,
        insert_value(s, x).contains(x),
        forall|y: u64| s.contains(y) ==> insert_value(s, x).contains(y),
{
    if !s.contains(x) {
        let t = s.push(x);
        assert(t[s.len() as int] == x);
        assert forall|y: u64| s.contains(y) implies t.contains(y) by {
            let k = choose|k: int| 0 <= k < s.len() && s[k] == y;
            assert(t[k] == y);
        }
    }
}

pub proof fn lemma_remove_value_props(s: Seq<u64>, x: u64, lo: int, hi: int)
    requires
        s.no_duplicates(),
        forall|j: int| 0 <= j < s.len() ==> lo <= #[trigger] s[j] <= hi,
    ensures
        remove_value(s, x).no_duplicates(),
        forall|j: int| 0 <= j < remove_value(s, x).len() ==> lo <= #[trigger] remove_value(s, x)[j] <= hi,
        !remove_value(s, x).contains(x),
        remove_value(s, x).len() <= s.len(),
{
    if s.contains(x) {
        let i = s.index_of(x);
        let t = remove_value(s, x);
        assert(s[i] == x);
        assert forall|a: int, b: int| 0 <= a < t.len() && 0 <= b < t.len() && a != b implies t[a] != t[b] by {
            let la = if a == i { s.len() - 1 } else { a };
            let lb = if b == i { s.len() - 1 } else { b };
            assert(t[a] == s[la]);
            assert(t[b] == s[lb]);
        }
        assert forall|j: int| 0 <= j < t.len() implies lo <= #[trigger] t[j] <= hi by {
            if j == i {
                assert(t[j] == s[s.len() - 1]);
            } else {
                assert(t[j] == s[j]);
            }
        }
        if t.contains(x) {
            let k = choose|k: int| 0 <= k < t.len() && t[k] == x;
            if k == i {
                assert(t[k] == s[s.len() - 1]);
            } else {
                assert(t[k] == s[k]);
            }
        }
    }
}

pub proof fn lemma_insert_all_props(s: Seq<u64>, ids: Seq<u64>, lo: int, hi: int)
    requires
        s.no_duplicates(),
        forall|j: int| 0 <= j < s.len() ==> lo <= #[trigger] s[j] <= hi,
        forall|j: int| 0 <= j < ids.len() ==> lo <= #[trigger] ids[j] <= hi,
    ensures
        insert_all(s, ids).no_duplicates(),
        forall|j: int| 0 <= j < insert_all(s, ids).len() ==> lo <= #[trigger] insert_all(s, ids)[j] <= hi,
        forall|j: int| 0 <= j < ids.len() ==> insert_all(s, ids).contains(#[trigger] ids[j]),
        forall|y: u64| s.contains(y) ==> insert_all(s, ids).contains(y),
    decreases ids.len(),
{
    if ids.len() > 0 {
        let p = ids.drop_last();
        lemma_insert_all_props(s, p, lo, hi);
        lemma_insert_value_props(insert_all(s, p), ids.last(), lo, hi);
        assert forall|j: int| 0 <= j < ids.len() implies insert_all(s, ids).contains(#[trigger] ids[j]) by {
            if j < ids.len() - 1 {
                assert(p[j] == ids[j]);
            }
        }
    }
}

pub proof fn lemma_remove_all_props(s: Seq<u64>, ids: Seq<u64>, lo: int, hi: int)
    requires
        s.no_duplicates(),
        forall|j: int| 0 <= j < s.len() ==> lo <= #[trigger] s[j] <= hi,
    ensures
        remove_all(s, ids).no_duplicates(),
        forall|j: int| 0 <= j < remove_all(s, ids).len() ==> lo <= #[trigger] remove_all(s, ids)[j] <= hi,
    decreases ids.len(),
{
    if ids.len() > 0 {
        lemma_remove_all_props(s, ids.drop_last(), lo, hi);
        lemma_remove_value_props(remove_all(s, ids.drop_last()), ids.last(), lo, hi);
    }
}

/// The multisig wallet's storage.
pub struct Multisig {
    pub(crate) quorum: usize,
    pub(crate) users: Vec<Address>,
    pub(crate) roles: Vec<UserRole>,
    pub(crate) nonces: Vec<Nonce>,
    pub(crate) num_board_members: usize,
    pub(crate) num_proposers: usize,
    pub(crate) actions: Vec<Action>,
    pub(crate) quorum_for_action: Vec<usize>,
    pub(crate) group_for_action: Vec<GroupId>,
    pub(crate) action_signer_ids: Vec<UnorderedSet>,
    pub(crate) action_groups: Vec<UnorderedSet>,
    pub(crate) action_group_status: Vec<ActionStatus>,
    pub(crate) modules: ModuleRegistry,
}

pub open spec fn sets_view(v: Seq<UnorderedSet>) -> Seq<Seq<u64>> {
    v.map_values(|s: UnorderedSet| s@)
}

pub open spec fn actions_view(v: Seq<Action>) -> Seq<ActionModel> {
    v.map_values(|a: Action| a@)
}

impl View for Multisig {
    type V = MultisigState;

    closed spec fn view(&self) -> MultisigState {
        MultisigState {
            quorum: self.quorum,
            users: self.users@,
            roles: self.roles@,
            nonces: self.nonces@,
            num_board_members: self.num_board_members,
            num_proposers: self.num_proposers,
            actions: actions_view(self.actions@),
            quorum_for_action: self.quorum_for_action@,
            group_for_action: self.group_for_action@,
            signers: sets_view(self.action_signer_ids@),
            groups: sets_view(self.action_groups@),
            group_status: self.action_group_status@,
            modules: self.modules@,
        }
    }
}

impl Multisig {
    pub open spec fn wf(&self) -> bool {
        multisig_wf(self@)
    }

    pub open spec fn tables_ok(&self) -> bool {
        tables_wf(self@)
    }

    /// The minimum number of signatures an action needs.
    pub fn get_quorum(&self) -> (q: usize)
        ensures
            q == self@.quorum,
    {
        self.quorum
    }

    pub fn get_num_board_members(&self) -> (n: usize)
        ensures
            n == self@.num_board_members,
    {
        self.num_board_members
    }

    /// The number of registered users.
    pub fn get_num_users(&self) -> (n: usize)
        ensures
            n == self@.users.len(),
    {
        self.users.len()
    }

    pub fn get_num_proposers(&self) -> (n: usize)
        ensures
            n == self@.num_proposers,
    {
        self.num_proposers
    }

    /// The id of the last batch.
    pub fn get_last_group_action_id(&self) -> (n: usize)
        ensures
            n == self@.groups.len(),
    {
        self.action_groups.len()
    }

    /// The id of the last action.
    pub fn get_action_last_index(&self) -> (n: usize)
        ensures
            n == self@.actions.len(),
    {
        self.actions.len()
    }

    /// The id of `address`, or 0 if it was never registered.
    pub fn get_user_id(&self, address: Address) -> (id: u64)
        requires
            self.tables_ok(),
        ensures
            id == user_id(self@, address),
    {
        let mut i: usize = 0;
        while i < self.users.len()
            invariant
                i <= self.users@.len(),
                self.tables_ok(),
                forall|j: int| 0 <= j < i ==> self.users@[j] != address,
            decreases self.users.len() - i,
        {
            if self.users[i] == address {
                proof {
                    let s = self@;
                    assert(s.users.contains(address));
                    let k = s.users.index_of(address);
                    assert(s.users[k] == address);
                    assert(s.users[i as int] == address);
                    assert(k == i);
                }
                return (i + 1) as u64;
            }
            i = i + 1;
        }
        0
    }

    /// The role of the user with id `user_id`.
    pub fn get_role_of_id(&self, id: u64) -> (r: UserRole)
        requires
            self.tables_ok(),
        ensures
            r == role_of_id(self@, id),
    {
        if 1 <= id && id <= self.roles.len() as u64 {
            self.roles[(id - 1) as usize]
        } else {
            UserRole::NoRole
        }
    }

    /// The address of the user with id `id`, if any.
    pub fn get_user_address(&self, id: u64) -> (r: Option<Address>)
        requires
            self.tables_ok(),
        ensures
            r == (if 1 <= id <= self@.users.len() {
                Some(self@.users[id - 1])
            } else {
                None::<Address>
            }),
    {
        if 1 <= id && id <= self.users.len() as u64 {
            Some(self.users[(id - 1) as usize])
        } else {
            None
        }
    }

    pub fn get_id_and_role(&self, user_address: Address) -> (r: (u64, UserRole))
        requires
            self.tables_ok(),
        ensures
            r.0 == user_id(self@, user_address),
            r.1 == role_of(self@, user_address),
    {
        let id = self.get_user_id(user_address);
        (id, self.get_role_of_id(id))
    }

    pub fn get_caller_id_and_role(&self, ctx: &crate::common::TxContext) -> (r: (u64, UserRole))
        requires
            self.tables_ok(),
        ensures
            r.0 == user_id(self@, ctx.caller),
            r.1 == role_of(self@, ctx.caller),
    {
        self.get_id_and_role(ctx.caller)
    }

    /// The role of `user`.
    pub fn user_role(&self, user: Address) -> (r: UserRole)
        requires
            self.tables_ok(),
        ensures
            r == role_of(self@, user),
    {
        let id = self.get_user_id(user);
        if id == 0 {
            return UserRole::NoRole;
        }
        self.get_role_of_id(id)
    }

    /// The ids of the users that signed action `action_id`, in signing order.
    pub fn get_action_signer_ids(&self, action_id: ActionId) -> (v: Vec<u64>)
        requires
            self.tables_ok(),
        ensures
            v@ == signers_of(self@, action_id),
    {
        if 1 <= action_id && action_id <= self.actions.len() {
            self.action_signer_ids[action_id - 1].to_vec()
        } else {
            Vec::new()
        }
    }

    /// The batch of action `action_id`, 0 when it belongs to none.
    pub fn get_group_for_action(&self, action_id: ActionId) -> (g: GroupId)
        requires
            self.tables_ok(),
        ensures
            g == group_of(self@, action_id),
    {
        if 1 <= action_id && action_id <= self.actions.len() {
            self.group_for_action[action_id - 1]
        } else {
            0
        }
    }

    pub fn get_quorum_for_action(&self, action_id: ActionId) -> (q: usize)
        requires
            self.tables_ok(),
        ensures
            q == quorum_of(self@, action_id),
    {
        if 1 <= action_id && action_id <= self.actions.len() {
            self.quorum_for_action[action_id - 1]
        } else {
            0
        }
    }

    /// The ids of the actions of batch `group_id`.
    pub fn get_action_group(&self, group_id: GroupId) -> (v: Vec<u64>)
        requires
            self.tables_ok(),
        ensures
            v@ == group_members(self@, group_id),
    {
        if 1 <= group_id && group_id <= self.action_groups.len() {
            self.action_groups[group_id - 1].to_vec()
        } else {
            Vec::new()
        }
    }

    pub fn get_action_group_status(&self, group_id: GroupId) -> (st: ActionStatus)
        requires
            self.tables_ok(),
        ensures
            st == group_status_of(self@, group_id),
    {
        if 1 <= group_id && group_id <= self.action_group_status.len() {
            self.action_group_status[group_id - 1]
        } else {
            ActionStatus::Available
        }
    }

    /// How many signers of the action may still sign.
    pub fn get_action_valid_signer_count(&self, action_id: ActionId) -> (n: usize)
        requires
            self.tables_ok(),
        ensures
            n == valid_signer_count(self@, signers_of(self@, action_id)),
    {
        let ids = self.get_action_signer_ids(action_id);
        let mut count: usize = 0;
        let mut i: usize = 0;
        while i < ids.len()
            invariant
                i <= ids@.len(),
                self.tables_ok(),
                count == valid_signer_count(self@, ids@.subrange(0, i as int)),
                count <= i,
            decreases ids.len() - i,
        {
            let role = self.get_role_of_id(ids[i]);
            proof {
                assert(ids@.subrange(0, i + 1).drop_last() =~= ids@.subrange(0, i as int));
            }
            if role.can_sign() {
                count = count + 1;
            }
            i = i + 1;
        }
        assert(ids@.subrange(0, ids@.len() as int) =~= ids@);
        count
    }

    /// Whether the action's valid signer count is at least the wallet's quorum.
    pub fn quorum_reached(&self, action_id: ActionId) -> (b: bool)
        requires
            self.tables_ok(),
        ensures
            b == quorum_is_reached(self@, action_id),
    {
        let quorum = self.get_quorum();
        let valid = self.get_action_valid_signer_count(action_id);
        valid >= quorum
    }

    /// The addresses of the users that signed the action.
    pub fn get_action_signers(&self, action_id: ActionId) -> (v: Vec<Address>)
        requires
            self.tables_ok(),
        ensures
            v@ == signer_addresses(self@, action_id),
    {
        let ids = self.get_action_signer_ids(action_id);
        let n = self.users.len();
        let mut out: Vec<Address> = Vec::new();
        let mut i: usize = 0;
        while i < ids.len()
            invariant
                n == self@.users.len(),
                i <= ids@.len(),
                self.tables_ok(),
                ids@ == signers_of(self@, action_id),
                out@.len() == i,
                forall|j: int| 0 <= j < i ==> out@[j] == self@.users[ids@[j] - 1],
            decreases ids.len() - i,
        {
            proof {
                assert(in_actions(self@, action_id));
                let k = action_id - 1;
                assert(ids@[i as int] == self@.signers[k][i as int]);
                assert(1 <= ids@[i as int] <= self@.users.len());
            }
            let id = ids[i];
            let idx = (id - 1) as usize;
            assert(idx == ids@[i as int] - 1);
            out.push(self.users[idx]);
            i = i + 1;
        }
        assert(out@ =~= signer_addresses(self@, action_id));
        out
    }

    /// Fails with "action does not exist" unless the action is pending.
    pub fn require_action_exists(&self, action_id: ActionId) -> (r: Result<(), MultisigError>)
        requires
            self.tables_ok(),
        ensures
            r is Ok <==> action_exists(self@, action_id),
            r is Err ==> r == Err::<(), MultisigError>(MultisigError::ActionDoesNotExist),
    {
        if 1 <= action_id && action_id <= self.actions.len() {
            if !self.actions[action_id - 1].is_nothing() {
                return Ok(());
            }
        }
        Err(MultisigError::ActionDoesNotExist)
    }
}

} // verus!

verus! {

proof fn lemma_sets_view_update(v: Seq<UnorderedSet>, i: int, x: UnorderedSet)
    requires
        0 <= i < v.len(),
    ensures
        sets_view(v.update(i, x)) == sets_view(v).update(i, x@),
{
    assert(sets_view(v.update(i, x)) =~= sets_view(v).update(i, x@));
}

proof fn lemma_sets_view_push(v: Seq<UnorderedSet>, x: UnorderedSet)
    ensures
        sets_view(v.push(x)) == sets_view(v).push(x@),
{
    assert(sets_view(v.push(x)) =~= sets_view(v).push(x@));
}

pub proof fn lemma_index_of_pushed(s: Seq<Address>, a: Address)
    requires
        s.no_duplicates(),
        !s.contains(a),
    ensures
        s.push(a).no_duplicates(),
        s.push(a).contains(a),
        s.push(a).index_of(a) == s.len(),
{
    let t = s.push(a);
    assert(t[s.len() as int] == a);
    assert forall|i: int, j: int| 0 <= i < t.len() && 0 <= j < t.len() && i != j implies t[i]
        != t[j] by {
        if i < s.len() && j < s.len() {
            assert(t[i] == s[i] && t[j] == s[j]);
        } else if i < s.len() {
            assert(t[i] == s[i]);
        } else if j < s.len() {
            assert(t[j] == s[j]);
        }
    }
    let k = t.index_of(a);
    assert(t[k] == a);
    if k < s.len() {
        assert(s[k] == a);
    }
}

impl Multisig {
    /// Clears action `id` and hands back what it held.
    pub(crate) fn clear_action(&mut self, id: ActionId) -> (taken: Action)
        requires
            old(self).tables_ok(),
        ensures
            final(self).tables_ok(),
            final(self)@ == cleared(old(self)@, id),
            taken@ == (if in_actions(old(self)@, id) {
                old(self)@.actions[id - 1]
            } else {
                ActionModel::Nothing
            }),
    {
        if 1 <= id && id <= self.actions.len() {
            let ghost s = self@;
            let idx = id - 1;
            let mut taken = Action::Nothing;
            proof {
                assert(actions_view(self.actions@.update(idx as int, taken)) =~= actions_view(self.actions@).update(idx as int, ActionModel::Nothing));
            }
            self.actions.set_and_swap(idx, &mut taken);
            let empty = UnorderedSet::new();
            proof {
                lemma_sets_view_update(self.action_signer_ids@, idx as int, empty);
            }
            self.action_signer_ids.set(idx, empty);
            assert(self.action_signer_ids@[idx as int]@ == Seq::<u64>::empty());
            let g = self.group_for_action[idx];
            if g != 0 {
                let mut grp = UnorderedSet::new();
                proof {
                    lemma_sets_view_update(self.action_groups@, g - 1, grp);
                }
                self.action_groups.set_and_swap(g - 1, &mut grp);
                grp.swap_remove(id as u64);
                proof {
                    lemma_sets_view_update(self.action_groups@, g - 1, grp);
                    lemma_remove_value_props(s.groups[g - 1], id as u64, 1, s.actions.len() as int);
                }
                self.action_groups.set(g - 1, grp);
                self.group_for_action.set(idx, 0);
            }
            proof {
                let t = self@;
                let c = cleared(s, id);
                assert(t.actions =~= c.actions);
                assert(t.signers =~= c.signers);
                assert(t.groups =~= c.groups);
                assert(t.group_for_action =~= c.group_for_action);
                assert(t == c);
                assert forall|i: int, j: int|
                    0 <= i < t.signers.len() && 0 <= j < t.signers[i].len() implies 1
                    <= #[trigger] t.signers[i][j] <= t.users.len() by {
                    assert(i != idx);
                    assert(t.signers[i] == s.signers[i]);
                }
                assert forall|i: int| 0 <= i < t.signers.len() implies (
                #[trigger] t.signers[i]).no_duplicates() by {
                    if i != idx {
                        assert(t.signers[i] == s.signers[i]);
                    }
                }
                assert forall|i: int| 0 <= i < t.groups.len() implies (
                #[trigger] t.groups[i]).no_duplicates() by {
                    if g == 0 || i != g - 1 {
                        assert(t.groups[i] == s.groups[i]);
                    }
                }
                assert forall|gg: int, j: int|
                    0 <= gg < t.groups.len() && 0 <= j < t.groups[gg].len() implies 1
                    <= #[trigger] t.groups[gg][j] <= t.actions.len() by {
                    if g == 0 || gg != g - 1 {
                        assert(t.groups[gg] == s.groups[gg]);
                    }
                }
                assert forall|i: int| 0 <= i < t.group_for_action.len() implies #[trigger]
                t.group_for_action[i] <= t.groups.len() by {
                    if i != idx {
                        assert(t.group_for_action[i] == s.group_for_action[i]);
                    }
                }
            }
            taken
        } else {
            Action::Nothing
        }
    }

    /// Sets the status of batch `g`.
    pub(crate) fn set_group_status(&mut self, g: GroupId, status: ActionStatus)
        requires
            old(self).tables_ok(),
            1 <= g <= old(self)@.groups.len(),
        ensures
            final(self).tables_ok(),
            final(self)@ == (MultisigState {
                group_status: old(self)@.group_status.update(g - 1, status),
                ..old(self)@
            }),
    {
        self.action_group_status.set(g - 1, status);
    }

    /// Marks the batch of action `action_id`, if any, as aborted.
    pub fn abort_batch_of_action(&mut self, action_id: ActionId)
        requires
            old(self).tables_ok(),
        ensures
            final(self).tables_ok(),
            final(self)@ == (if group_of(old(self)@, action_id) != 0 {
                MultisigState {
                    group_status: old(self)@.group_status.update(
                        group_of(old(self)@, action_id) - 1,
                        ActionStatus::Aborted,
                    ),
                    ..old(self)@
                }
            } else {
                old(self)@
            }),
    {
        let batch_id = self.get_group_for_action(action_id);
        if batch_id != 0 {
            proof {
                let k = action_id - 1;
                assert(self@.group_for_action[k] <= self@.groups.len());
            }
            self.set_group_status(batch_id, ActionStatus::Aborted);
        }
    }

    /// Gives `address` role `new_role`, registering it if it is unknown and
    /// the role is not the empty one, and keeps the board and proposer
    /// counters in step.
    pub(crate) fn change_user_role(&mut self, address: Address, new_role: UserRole) -> (r: Result<
        (),
        MultisigError,
    >)
        requires
            old(self).tables_ok(),
        ensures
            r is Err <==> change_role_overflows(old(self)@, address, new_role),
            r is Err ==> r == Err::<(), MultisigError>(MultisigError::ArithmeticOverflow)
                && final(self)@ == old(self)@,
            r is Ok ==> final(self)@ == change_role(old(self)@, address, new_role),
            final(self).tables_ok(),
    {
        let ghost s = self@;
        let id = self.get_user_id(address);
        if id == 0 && new_role == UserRole::NoRole {
            return Ok(());
        }
        let idx: usize;
        if id == 0 {
            if self.users.len() as u64 >= u64::MAX - 1 || self.users.len() >= usize::MAX - 1 {
                return Err(MultisigError::ArithmeticOverflow);
            }
            proof {
                lemma_index_of_pushed(s.users, address);
                lemma_count_role_push(s.roles, UserRole::NoRole, UserRole::BoardMember);
                lemma_count_role_push(s.roles, UserRole::NoRole, UserRole::Proposer);
            }
            self.users.push(address);
            self.roles.push(UserRole::NoRole);
            self.nonces.push(0);
            idx = self.users.len() - 1;
        } else {
            let n = self.users.len();
            assert(id <= n);
            idx = (id - 1) as usize;
        }
        let n = self.roles.len();
        let ghost s1 = self@;
        proof {
            assert(user_id(s1, address) == idx + 1);
        }
        let old_role = self.roles[idx];
        proof {
            lemma_count_role_update(s1.roles, idx as int, new_role, UserRole::BoardMember);
            lemma_count_role_update(s1.roles, idx as int, new_role, UserRole::Proposer);
            lemma_count_role_bounded(s1.roles.update(idx as int, new_role), UserRole::BoardMember);
            lemma_count_role_bounded(s1.roles.update(idx as int, new_role), UserRole::Proposer);
        }
        self.roles.set(idx, new_role);
        if old_role == UserRole::BoardMember && new_role != UserRole::BoardMember {
            self.num_board_members = self.num_board_members - 1;
        } else if old_role != UserRole::BoardMember && new_role == UserRole::BoardMember {
            self.num_board_members = self.num_board_members + 1;
        }
        if old_role == UserRole::Proposer && new_role != UserRole::Proposer {
            self.num_proposers = self.num_proposers - 1;
        } else if old_role != UserRole::Proposer && new_role == UserRole::Proposer {
            self.num_proposers = self.num_proposers + 1;
        }
        proof {
            let t = self@;
            let c = change_role(s, address, new_role);
            assert(t.roles =~= c.roles);
            assert(t.users =~= c.users);
            assert(t.nonces =~= c.nonces);
            assert(t == c);
        }
        Ok(())
    }

    /// Whether one more action fits.
    pub(crate) fn can_push_action(&self) -> (b: bool)
        ensures
            b == (self@.actions.len() < usize::MAX),
    {
        self.actions.len() < usize::MAX
    }

    /// Appends an action with its quorum, its batch, and, when `signer` is
    /// not 0, that user as its first signer; returns its id.
    pub(crate) fn push_action(
        &mut self,
        action: Action,
        quorum: usize,
        group: GroupId,
        signer: u64,
    ) -> (id: ActionId)
        requires
            old(self).tables_ok(),
            old(self)@.actions.len() < usize::MAX,
            group <= old(self)@.groups.len(),
            signer == 0 || 1 <= signer <= old(self)@.users.len(),
        ensures
            final(self).tables_ok(),
            id == old(self)@.actions.len() + 1,
            final(self)@ == (MultisigState {
                actions: old(self)@.actions.push(action@),
                quorum_for_action: old(self)@.quorum_for_action.push(quorum),
                group_for_action: old(self)@.group_for_action.push(group),
                signers: old(self)@.signers.push(
                    if signer == 0 {
                        Seq::<u64>::empty()
                    } else {
                        seq![signer]
                    },
                ),
                ..old(self)@
            }),
    {
        let ghost s = self@;
        let mut signers = UnorderedSet::new();
        if signer != 0 {
            signers.insert(signer);
        }
        proof {
            lemma_sets_view_push(self.action_signer_ids@, signers);
            if signer != 0 {
                assert(signers@ =~= seq![signer]);
            }
        }
        proof {
            assert(actions_view(self.actions@.push(action)) =~= actions_view(self.actions@).push(action@));
        }
        self.actions.push(action);
        self.quorum_for_action.push(quorum);
        self.group_for_action.push(group);
        self.action_signer_ids.push(signers);
        proof {
            let t = self@;
            assert forall|i: int, j: int|
                0 <= i < t.signers.len() && 0 <= j < t.signers[i].len() implies 1
                <= #[trigger] t.signers[i][j] <= t.users.len() by {
                if i < s.signers.len() {
                    assert(t.signers[i] == s.signers[i]);
                }
            }
            assert forall|i: int| 0 <= i < t.signers.len() implies (
            #[trigger] t.signers[i]).no_duplicates() by {
                if i < s.signers.len() {
                    assert(t.signers[i] == s.signers[i]);
                }
            }
            assert forall|i: int| 0 <= i < t.group_for_action.len() implies #[trigger]
            t.group_for_action[i] <= t.groups.len() by {
                if i < s.group_for_action.len() {
                    assert(t.group_for_action[i] == s.group_for_action[i]);
                }
            }
        }
        self.actions.len()
    }

    /// Whether one more batch fits.
    pub(crate) fn can_push_group(&self) -> (b: bool)
        ensures
            b == (self@.groups.len() < usize::MAX),
    {
        self.action_groups.len() < usize::MAX
    }

    /// Creates an empty, available batch; returns its id.
    pub(crate) fn new_group(&mut self) -> (g: GroupId)
        requires
            old(self).tables_ok(),
            old(self)@.groups.len() < usize::MAX,
        ensures
            final(self).tables_ok(),
            g == old(self)@.groups.len() + 1,
            final(self)@ == (MultisigState {
                groups: old(self)@.groups.push(Seq::empty()),
                group_status: old(self)@.group_status.push(ActionStatus::Available),
                ..old(self)@
            }),
    {
        let ghost s = self@;
        let empty = UnorderedSet::new();
        proof {
            lemma_sets_view_push(self.action_groups@, empty);
        }
        self.action_groups.push(empty);
        self.action_group_status.push(ActionStatus::Available);
        proof {
            let t = self@;
            assert(t.groups =~= s.groups.push(Seq::empty()));
            assert forall|i: int| 0 <= i < t.groups.len() implies (
            #[trigger] t.groups[i]).no_duplicates() by {
                if i < s.groups.len() {
                    assert(t.groups[i] == s.groups[i]);
                }
            }
            assert forall|gg: int, j: int|
                0 <= gg < t.groups.len() && 0 <= j < t.groups[gg].len() implies 1
                <= #[trigger] t.groups[gg][j] <= t.actions.len() by {
                assert(gg < s.groups.len());
                assert(t.groups[gg] == s.groups[gg]);
            }
            assert forall|i: int| 0 <= i < t.group_for_action.len() implies #[trigger]
            t.group_for_action[i] <= t.groups.len() by {
                assert(t.group_for_action[i] == s.group_for_action[i]);
            }
        }
        self.action_groups.len()
    }

    /// Adds action `id` to batch `g`.
    pub(crate) fn add_to_group(&mut self, g: GroupId, id: ActionId)
        requires
            old(self).tables_ok(),
            1 <= g <= old(self)@.groups.len(),
            in_actions(old(self)@, id),
        ensures
            final(self).tables_ok(),
            final(self)@ == (MultisigState {
                groups: old(self)@.groups.update(
                    g - 1,
                    insert_value(old(self)@.groups[g - 1], id as u64),
                ),
                group_for_action: old(self)@.group_for_action.update(id - 1, g),
                ..old(self)@
            }),
    {
        let ghost s = self@;
        let mut grp = UnorderedSet::new();
        proof {
            lemma_sets_view_update(self.action_groups@, g - 1, grp);
        }
        self.action_groups.set_and_swap(g - 1, &mut grp);
        grp.insert(id as u64);
        proof {
            lemma_sets_view_update(self.action_groups@, g - 1, grp);
            lemma_insert_value_props(s.groups[g - 1], id as u64, 1, s.actions.len() as int);
        }
        self.action_groups.set(g - 1, grp);
        self.group_for_action.set(id - 1, g);
        proof {
            let t = self@;
            assert(t.groups =~= s.groups.update(
                g - 1,
                insert_value(s.groups[g - 1], id as u64),
            ));
            assert forall|i: int| 0 <= i < t.groups.len() implies (
            #[trigger] t.groups[i]).no_duplicates() by {
                if i != g - 1 {
                    assert(t.groups[i] == s.groups[i]);
                }
            }
            assert forall|gg: int, j: int|
                0 <= gg < t.groups.len() && 0 <= j < t.groups[gg].len() implies 1
                <= #[trigger] t.groups[gg][j] <= t.actions.len() by {
                if gg != g - 1 {
                    assert(t.groups[gg] == s.groups[gg]);
                }
            }
            assert forall|i: int| 0 <= i < t.group_for_action.len() implies #[trigger]
            t.group_for_action[i] <= t.groups.len() by {
                if i != id - 1 {
                    assert(t.group_for_action[i] == s.group_for_action[i]);
                }
            }
        }
    }

    /// Adds the users `ids`, in order, to the signers of action `id`.
    pub fn add_signatures(&mut self, id: ActionId, ids: &Vec<u64>)
        requires
            old(self).tables_ok(),
            in_actions(old(self)@, id),
            forall|j: int| 0 <= j < ids@.len() ==> 1 <= #[trigger] ids@[j] <= old(self)@.users.len(),
        ensures
            final(self).tables_ok(),
            final(self)@ == (MultisigState {
                signers: old(self)@.signers.update(
                    id - 1,
                    insert_all(old(self)@.signers[id - 1], ids@),
                ),
                ..old(self)@
            }),
    {
        let ghost s = self@;
        let idx = id - 1;
        let mut set = UnorderedSet::new();
        proof {
            lemma_sets_view_update(self.action_signer_ids@, idx as int, set);
        }
        self.action_signer_ids.set_and_swap(idx, &mut set);
        let mut i: usize = 0;
        while i < ids.len()
            invariant
                i <= ids@.len(),
                set@ == insert_all(s.signers[idx as int], ids@.subrange(0, i as int)),
            decreases ids.len() - i,
        {
            proof {
                assert(ids@.subrange(0, i + 1).drop_last() =~= ids@.subrange(0, i as int));
            }
            set.insert(ids[i]);
            i = i + 1;
        }
        proof {
            assert(ids@.subrange(0, ids@.len() as int) =~= ids@);
            lemma_sets_view_update(self.action_signer_ids@, idx as int, set);
            lemma_insert_all_props(s.signers[idx as int], ids@, 1, s.users.len() as int);
        }
        self.action_signer_ids.set(idx, set);
        proof {
            let t = self@;
            assert(t.signers =~= s.signers.update(idx as int, insert_all(s.signers[idx as int], ids@)));
            assert forall|i: int, j: int|
                0 <= i < t.signers.len() && 0 <= j < t.signers[i].len() implies 1
                <= #[trigger] t.signers[i][j] <= t.users.len() by {
                if i != idx {
                    assert(t.signers[i] == s.signers[i]);
                }
            }
            assert forall|i: int| 0 <= i < t.signers.len() implies (
            #[trigger] t.signers[i]).no_duplicates() by {
                if i != idx {
                    assert(t.signers[i] == s.signers[i]);
                }
            }
        }
    }

    /// Removes the users `ids`, in order, from the signers of action `id`;
    /// nothing happens for an id that is not an action.
    pub(crate) fn remove_signers(&mut self, id: ActionId, ids: &Vec<u64>)
        requires
            old(self).tables_ok(),
        ensures
            final(self).tables_ok(),
            final(self)@ == (if in_actions(old(self)@, id) {
                MultisigState {
                    signers: old(self)@.signers.update(
                        id - 1,
                        remove_all(old(self)@.signers[id - 1], ids@),
                    ),
                    ..old(self)@
                }
            } else {
                old(self)@
            }),
    {
        if !(1 <= id && id <= self.actions.len()) {
            return;
        }
        let ghost s = self@;
        let idx = id - 1;
        let mut set = UnorderedSet::new();
        proof {
            lemma_sets_view_update(self.action_signer_ids@, idx as int, set);
        }
        self.action_signer_ids.set_and_swap(idx, &mut set);
        let mut i: usize = 0;
        while i < ids.len()
            invariant
                i <= ids@.len(),
                set@ == remove_all(s.signers[idx as int], ids@.subrange(0, i as int)),
            decreases ids.len() - i,
        {
            proof {
                assert(ids@.subrange(0, i + 1).drop_last() =~= ids@.subrange(0, i as int));
            }
            set.swap_remove(ids[i]);
            i = i + 1;
        }
        proof {
            assert(ids@.subrange(0, ids@.len() as int) =~= ids@);
            lemma_sets_view_update(self.action_signer_ids@, idx as int, set);
            lemma_remove_all_props(s.signers[idx as int], ids@, 1, s.users.len() as int);
        }
        self.action_signer_ids.set(idx, set);
        proof {
            let t = self@;
            assert(t.signers =~= s.signers.update(idx as int, remove_all(s.signers[idx as int], ids@)));
            assert forall|i: int, j: int|
                0 <= i < t.signers.len() && 0 <= j < t.signers[i].len() implies 1
                <= #[trigger] t.signers[i][j] <= t.users.len() by {
                if i != idx {
                    assert(t.signers[i] == s.signers[i]);
                }
            }
            assert forall|i: int| 0 <= i < t.signers.len() implies (
            #[trigger] t.signers[i]).no_duplicates() by {
                if i != idx {
                    assert(t.signers[i] == s.signers[i]);
                }
            }
        }
    }

    /// A copy of the nonce table.
    pub(crate) fn nonces_copy(&self) -> (v: Vec<Nonce>)
        ensures
            v@ == self@.nonces,
    {
        self.nonces.clone()
    }

    /// Replaces the nonce table.
    pub(crate) fn set_nonces(&mut self, nonces: Vec<Nonce>)
        requires
            old(self).tables_ok(),
            nonces@.len() == old(self)@.users.len(),
        ensures
            final(self).tables_ok(),
            final(self)@ == (MultisigState { nonces: nonces@, ..old(self)@ }),
    {
        self.nonces = nonces;
    }

    /// A copy of the whole storage.
    pub fn duplicate(&self) -> (r: Self)
        ensures
            r@ == self@,
    {
        let mut actions: Vec<Action> = Vec::new();
        let mut i: usize = 0;
        while i < self.actions.len()
            invariant
                i <= self.actions@.len(),
                actions@.len() == i,
                forall|m: int| 0 <= m < i ==> (#[trigger] actions@[m])@ == self.actions@[m]@,
            decreases self.actions.len() - i,
        {
            let a = self.actions[i].duplicate();
            actions.push(a);
            i = i + 1;
        }
        assert(actions_view(actions@) =~= actions_view(self.actions@));
        let mut signers: Vec<UnorderedSet> = Vec::new();
        let mut j: usize = 0;
        while j < self.action_signer_ids.len()
            invariant
                j <= self.action_signer_ids@.len(),
                signers@.len() == j,
                forall|m: int| 0 <= m < j ==> (#[trigger] signers@[m])@ == self.action_signer_ids@[m]@,
            decreases self.action_signer_ids.len() - j,
        {
            let c = self.action_signer_ids[j].duplicate();
            signers.push(c);
            j = j + 1;
        }
        assert(sets_view(signers@) =~= sets_view(self.action_signer_ids@));
        let mut groups: Vec<UnorderedSet> = Vec::new();
        let mut k: usize = 0;
        while k < self.action_groups.len()
            invariant
                k <= self.action_groups@.len(),
                groups@.len() == k,
                forall|m: int| 0 <= m < k ==> (#[trigger] groups@[m])@ == self.action_groups@[m]@,
            decreases self.action_groups.len() - k,
        {
            let c = self.action_groups[k].duplicate();
            groups.push(c);
            k = k + 1;
        }
        assert(sets_view(groups@) =~= sets_view(self.action_groups@));
        Multisig {
            quorum: self.quorum,
            users: copy_vec(&self.users),
            roles: copy_vec(&self.roles),
            nonces: copy_vec(&self.nonces),
            num_board_members: self.num_board_members,
            num_proposers: self.num_proposers,
            actions,
            quorum_for_action: copy_vec(&self.quorum_for_action),
            group_for_action: copy_vec(&self.group_for_action),
            action_signer_ids: signers,
            action_groups: groups,
            action_group_status: copy_vec(&self.action_group_status),
            modules: self.modules.duplicate(),
        }
    }

    /// A reference to action `id`.
    pub(crate) fn action_ref(&self, id: ActionId) -> (r: &Action)
        requires
            in_actions(self@, id),
        ensures
            r@ == self@.actions[id - 1],
    {
        &self.actions[id - 1]
    }

    /// Sets the quorum.
    pub(crate) fn set_quorum(&mut self, quorum: usize)
        requires
            old(self).tables_ok(),
        ensures
            final(self).tables_ok(),
            final(self)@ == (MultisigState { quorum, ..old(self)@ }),
    {
        self.quorum = quorum;
    }

    /// The module registry.
    pub(crate) fn modules_ref(&self) -> (r: &ModuleRegistry)
        ensures
            r@ == self@.modules,
    {
        &self.modules
    }

    /// Takes the module registry out, leaving an empty one.
    pub(crate) fn take_modules(&mut self) -> (r: ModuleRegistry)
        requires
            old(self).tables_ok(),
        ensures
            final(self).tables_ok(),
            r@ == old(self)@.modules,
            final(self)@ == (MultisigState { modules: no_modules(), ..old(self)@ }),
    {
        let mut r = ModuleRegistry::new();
        std::mem::swap(&mut r, &mut self.modules);
        r
    }

    /// Puts `modules` in as the module registry.
    pub(crate) fn put_modules(&mut self, modules: ModuleRegistry)
        requires
            old(self).tables_ok(),
        ensures
            final(self).tables_ok(),
            final(self)@ == (MultisigState { modules: modules@, ..old(self)@ }),
    {
        self.modules = modules;
    }

    /// A wallet with no user, no action and quorum 0.
    pub(crate) fn empty() -> (m: Multisig)
        ensures
            m@ == initial_state(0, Seq::empty()),
            tables_wf(m@),
    {
        let m = Multisig {
            quorum: 0,
            users: Vec::new(),
            roles: Vec::new(),
            nonces: Vec::new(),
            num_board_members: 0,
            num_proposers: 0,
            actions: Vec::new(),
            quorum_for_action: Vec::new(),
            group_for_action: Vec::new(),
            action_signer_ids: Vec::new(),
            action_groups: Vec::new(),
            action_group_status: Vec::new(),
            modules: ModuleRegistry::new(),
        };
        proof {
            let s = m@;
            let t = initial_state(0, Seq::empty());
            assert(s.roles =~= t.roles);
            assert(s.nonces =~= t.nonces);
            assert(s.actions =~= t.actions);
            assert(s.signers =~= t.signers);
            assert(s.groups =~= t.groups);
        }
        m
    }

}

} // verus!
