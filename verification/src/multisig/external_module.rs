//! External modules: contracts that the wallet trusts to approve actions.
//!
//! Each module has an id, an owner (a user id), a status and a list of
//! further users allowed to act through it. The module's own verdict comes
//! from a call to that contract, which the virtual machine makes; the
//! decision around it is made here.
use vstd::prelude::*;
use crate::common::{Address, EsdtTokenPayment, PaymentView, TxContext};
use super::action::tokens_view;
use crate::unordered_set::{insert_value, remove_value, UnorderedSet};
use super::error::MultisigError;
use super::state::{role_of, sets_view, user_id, Multisig, MultisigState};
use super::user_role::role_can_propose;

verus! {

/// A module's id; 0 stands for no module.
pub type ModuleId = u64;

/// The module registry as plain values. The module numbered `n` sits at
/// position `n - 1` of each sequence.
pub ghost struct ModulesView {
    pub addresses: Seq<Address>,
    /// The user id of each module's owner.
    pub owners: Seq<u64>,
    /// Whether each module is enabled.
    pub status: Seq<bool>,
    /// The user ids, besides the owner, allowed to act through each module.
    pub allowed: Seq<Seq<u64>>,
}

/// A registry with no module.
pub open spec fn no_modules() -> ModulesView {
    ModulesView {
        addresses: Seq::empty(),
        owners: Seq::empty(),
        status: Seq::empty(),
        allowed: Seq::empty(),
    }
}

/// The id of module `address`, or 0 for an unknown address.
pub open spec fn module_id(m: ModulesView, address: Address) -> ModuleId {
    if m.addresses.contains(address) {
        (m.addresses.index_of(address) + 1) as u64
    } else {
        0
    }
}

/// The registry of external modules.
pub struct ModuleRegistry {
    addresses: Vec<Address>,
    owners: Vec<u64>,
    status: Vec<bool>,
    allowed: Vec<UnorderedSet>,
}

impl View for ModuleRegistry {
    type V = ModulesView;

    closed spec fn view(&self) -> ModulesView {
        ModulesView {
            addresses: self.addresses@,
            owners: self.owners@,
            status: self.status@,
            allowed: sets_view(self.allowed@),
        }
    }
}

/// The registry's tables line up, and no address is registered twice.
pub open spec fn modules_wf(m: ModulesView) -> bool {
    &&& m.owners.len() == m.addresses.len()
    &&& m.status.len() == m.addresses.len()
    &&& m.allowed.len() == m.addresses.len()
    &&& m.addresses.no_duplicates()
}

impl ModuleRegistry {
    #[verifier::type_invariant]
    closed spec fn tables_line_up(&self) -> bool {
        modules_wf(self@)
    }

    /// An empty registry.
    pub fn new() -> (r: ModuleRegistry)
        ensures
            r@ == no_modules(),
    {
        let r = ModuleRegistry {
            addresses: Vec::new(),
            owners: Vec::new(),
            status: Vec::new(),
            allowed: Vec::new(),
        };
        assert(r@.allowed =~= Seq::<Seq<u64>>::empty());
        r
    }

    /// The id of module `address`, or 0 if it is not registered.
    pub fn get_id(&self, address: Address) -> (id: ModuleId)
        ensures
            id == module_id(self@, address),
            modules_wf(self@),
    {
        proof {
            use_type_invariant(self);
        }
        let mut i: usize = 0;
        while i < self.addresses.len()
            invariant
                i <= self.addresses@.len(),
                modules_wf(self@),
                forall|j: int| 0 <= j < i ==> self.addresses@[j] != address,
            decreases self.addresses.len() - i,
        {
            if self.addresses[i] == address {
                proof {
                    let s = self.addresses@;
                    assert(s.contains(address));
                    let k = s.index_of(address);
                    assert(s[k] == address);
                    assert(k == i);
                }
                return (i + 1) as u64;
            }
            i = i + 1;
        }
        0
    }

    /// Registers module `address` with owner `owner_id`, disabled and with no
    /// further allowed user; returns its id. Fails with "Address already
    /// registered" for a known address.
    pub fn insert_new(&mut self, address: Address, owner_id: u64) -> (r: Result<ModuleId, MultisigError>)
        ensures
            module_id(old(self)@, address) != 0 ==> r == Err::<ModuleId, MultisigError>(
                MultisigError::AddressAlreadyRegistered,
            ) && final(self)@ == old(self)@,
            module_id(old(self)@, address) == 0 && old(self)@.addresses.len() >= usize::MAX ==> r
                == Err::<ModuleId, MultisigError>(MultisigError::ArithmeticOverflow) && final(self)@
                == old(self)@,
            module_id(old(self)@, address) == 0 && old(self)@.addresses.len() < usize::MAX ==> r
                == Ok::<ModuleId, MultisigError>((old(self)@.addresses.len() + 1) as u64)
                && final(self)@ == (ModulesView {
                addresses: old(self)@.addresses.push(address),
                owners: old(self)@.owners.push(owner_id),
                status: old(self)@.status.push(false),
                allowed: old(self)@.allowed.push(Seq::empty()),
            }),
    {
        proof {
            use_type_invariant(&*self);
        }
        if self.get_id(address) != 0 {
            return Err(MultisigError::AddressAlreadyRegistered);
        }
        let n = self.addresses.len();
        if n == usize::MAX {
            return Err(MultisigError::ArithmeticOverflow);
        }
        let ghost s = self@;
        let mut taken = ModuleRegistry::new();
        std::mem::swap(&mut taken, self);
        let ModuleRegistry { mut addresses, mut owners, mut status, mut allowed } = taken;
        addresses.push(address);
        owners.push(owner_id);
        status.push(false);
        let ghost old_allowed = allowed@;
        allowed.push(UnorderedSet::new());
        proof {
            assert(!s.addresses.contains(address));
            assert forall|a: int, b: int| 0 <= a < b < addresses@.len() implies addresses@[a]
                != addresses@[b] by {
                if b == addresses@.len() - 1 {
                    assert(addresses@[b] == address);
                    assert(addresses@[a] == s.addresses[a]);
                }
            }
            assert(sets_view(allowed@) =~= sets_view(old_allowed).push(Seq::<u64>::empty()));
        }
        *self = ModuleRegistry { addresses, owners, status, allowed };
        Ok((n + 1) as u64)
    }

    /// The status of module `id`.
    pub fn status_of(&self, id: ModuleId) -> (b: bool)
        requires
            1 <= id <= self@.addresses.len(),
        ensures
            b == self@.status[id - 1],
    {
        proof {
            use_type_invariant(self);
        }
        let n = self.addresses.len();
        assert(id - 1 < n);
        self.status[(id - 1) as usize]
    }

    /// The owner of module `id`.
    pub fn owner_of(&self, id: ModuleId) -> (o: u64)
        requires
            1 <= id <= self@.addresses.len(),
        ensures
            o == self@.owners[id - 1],
    {
        proof {
            use_type_invariant(self);
        }
        let n = self.addresses.len();
        assert(id - 1 < n);
        self.owners[(id - 1) as usize]
    }

    /// Whether user `user_id` may act through module `id`.
    pub fn is_allowed(&self, id: ModuleId, user_id: u64) -> (b: bool)
        requires
            1 <= id <= self@.addresses.len(),
        ensures
            b == self@.allowed[id - 1].contains(user_id),
    {
        proof {
            use_type_invariant(self);
        }
        let n = self.addresses.len();
        assert(id - 1 < n);
        self.allowed[(id - 1) as usize].contains(user_id)
    }

    /// Sets the status of module `id`.
    pub fn set_status(&mut self, id: ModuleId, status: bool)
        requires
            1 <= id <= old(self)@.addresses.len(),
        ensures
            final(self)@ == (ModulesView { status: old(self)@.status.update(id - 1, status), ..old(self)@ }),
    {
        proof {
            use_type_invariant(&*self);
        }
        let n = self.addresses.len();
        assert(id - 1 < n);
        let mut taken = ModuleRegistry::new();
        std::mem::swap(&mut taken, self);
        let ModuleRegistry { addresses, owners, status: mut table, allowed } = taken;
        table.set((id - 1) as usize, status);
        *self = ModuleRegistry { addresses, owners, status: table, allowed };
    }

    /// Replaces the allowed users of module `id` with `set`.
    pub(crate) fn set_allowed(&mut self, id: ModuleId, set: UnorderedSet)
        requires
            1 <= id <= old(self)@.addresses.len(),
        ensures
            final(self)@ == (ModulesView { allowed: old(self)@.allowed.update(id - 1, set@), ..old(self)@ }),
    {
        proof {
            use_type_invariant(&*self);
        }
        let n = self.addresses.len();
        assert(id - 1 < n);
        let mut taken = ModuleRegistry::new();
        std::mem::swap(&mut taken, self);
        let ModuleRegistry { addresses, owners, status, allowed: mut table } = taken;
        let ghost before = table@;
        let ghost sv = set@;
        table.set((id - 1) as usize, set);
        proof {
            assert(sets_view(table@) =~= sets_view(before).update(id - 1, sv));
        }
        *self = ModuleRegistry { addresses, owners, status, allowed: table };
    }

    /// A copy of the allowed users of module `id`.
    pub(crate) fn allowed_copy(&self, id: ModuleId) -> (s: UnorderedSet)
        requires
            1 <= id <= self@.addresses.len(),
        ensures
            s@ == self@.allowed[id - 1],
    {
        proof {
            use_type_invariant(self);
        }
        let n = self.addresses.len();
        assert(id - 1 < n);
        self.allowed[(id - 1) as usize].duplicate()
    }

    /// A copy of the registry.
    pub fn duplicate(&self) -> (r: Self)
        ensures
            r@ == self@,
    {
        proof {
            use_type_invariant(self);
        }
        let mut allowed: Vec<UnorderedSet> = Vec::new();
        let mut k: usize = 0;
        while k < self.allowed.len()
            invariant
                k <= self.allowed@.len(),
                allowed@.len() == k,
                forall|m: int| 0 <= m < k ==> (#[trigger] allowed@[m])@ == self.allowed@[m]@,
            decreases self.allowed.len() - k,
        {
            let c = self.allowed[k].duplicate();
            allowed.push(c);
            k = k + 1;
        }
        assert(sets_view(allowed@) =~= sets_view(self.allowed@));
        ModuleRegistry {
            addresses: crate::common::copy_vec(&self.addresses),
            owners: crate::common::copy_vec(&self.owners),
            status: crate::common::copy_vec(&self.status),
            allowed,
        }
    }
}

/// Why `caller` may not manage module `id`, if it may not: it must be
/// allowed to propose, and be the module's owner.
pub open spec fn module_owner_error(s: MultisigState, caller: Address, id: ModuleId) -> Option<
    MultisigError,
> {
    if !role_can_propose(role_of(s, caller)) {
        Some(MultisigError::OnlyProposersCanPropose)
    } else if user_id(s, caller) != s.modules.owners[id - 1] {
        Some(MultisigError::OnlyModuleOwner)
    } else {
        None
    }
}

/// The storage with the status of module `id` set to `status`.
pub open spec fn with_module_status(s: MultisigState, id: ModuleId, status: bool) -> MultisigState {
    MultisigState {
        modules: ModulesView { status: s.modules.status.update(id - 1, status), ..s.modules },
        ..s
    }
}

/// What setting a module's status does: the module must be registered and
/// the caller must be its owner.
pub open spec fn set_module_status_outcome(
    s: MultisigState,
    caller: Address,
    module: Address,
    status: bool,
) -> Result<MultisigState, MultisigError> {
    let id = module_id(s.modules, module);
    if id == 0 {
        Err(MultisigError::UnknownAddress)
    } else {
        match module_owner_error(s, caller, id) {
            Some(e) => Err(e),
            None => Ok(with_module_status(s, id, status)),
        }
    }
}

/// The allowed users of a module after `addresses` are added one after the
/// other: each must be allowed to propose.
pub open spec fn add_allowed(s: MultisigState, set: Seq<u64>, addresses: Seq<Address>) -> Result<
    Seq<u64>,
    MultisigError,
>
    decreases addresses.len(),
{
    if addresses.len() == 0 {
        Ok(set)
    } else {
        match add_allowed(s, set, addresses.drop_last()) {
            Err(e) => Err(e),
            Ok(cur) => if !role_can_propose(role_of(s, addresses.last())) {
                Err(MultisigError::OnlyProposersCanPropose)
            } else {
                Ok(insert_value(cur, user_id(s, addresses.last())))
            },
        }
    }
}

/// The allowed users of a module after `addresses` are removed one after
/// the other: each must be a known user, and in the list when its turn comes.
pub open spec fn remove_allowed(s: MultisigState, set: Seq<u64>, addresses: Seq<Address>) -> Result<
    Seq<u64>,
    MultisigError,
>
    decreases addresses.len(),
{
    if addresses.len() == 0 {
        Ok(set)
    } else {
        match remove_allowed(s, set, addresses.drop_last()) {
            Err(e) => Err(e),
            Ok(cur) => {
                let id = user_id(s, addresses.last());
                if id == 0 {
                    Err(MultisigError::UnknownAddress)
                } else if !cur.contains(id) {
                    Err(MultisigError::AddressNotInList)
                } else {
                    Ok(remove_value(cur, id))
                }
            },
        }
    }
}

/// The storage with the allowed users of module `id` set to `set`.
pub open spec fn with_allowed(s: MultisigState, id: ModuleId, set: Seq<u64>) -> MultisigState {
    MultisigState {
        modules: ModulesView { allowed: s.modules.allowed.update(id - 1, set), ..s.modules },
        ..s
    }
}

/// What changing the allowed users of a module does: the module must be
/// registered, the caller must be its owner, and the change must go
/// through for every address (`adding` tells which change).
pub open spec fn change_allowed_outcome(
    s: MultisigState,
    caller: Address,
    module: Address,
    addresses: Seq<Address>,
    adding: bool,
) -> Result<MultisigState, MultisigError> {
    let id = module_id(s.modules, module);
    if id == 0 {
        Err(MultisigError::UnknownAddress)
    } else {
        match module_owner_error(s, caller, id) {
            Some(e) => Err(e),
            None => {
                let r = if adding {
                    add_allowed(s, s.modules.allowed[id - 1], addresses)
                } else {
                    remove_allowed(s, s.modules.allowed[id - 1], addresses)
                };
                match r {
                    Err(e) => Err(e),
                    Ok(set) => Ok(with_allowed(s, id, set)),
                }
            },
        }
    }
}

/// Whether module `module` is asked to approve an action of `caller`: it
/// must be registered and enabled, and the caller must be its owner or one
/// of its allowed users. A caller that is no user fails the transaction.
pub open spec fn module_is_asked(s: MultisigState, caller: Address, module: Address) -> Result<
    bool,
    MultisigError,
> {
    let id = module_id(s.modules, module);
    let caller_id = user_id(s, caller);
    if id == 0 {
        Ok(false)
    } else if !s.modules.status[id - 1] {
        Ok(false)
    } else if caller_id == 0 {
        Err(MultisigError::UnknownAddress)
    } else if caller_id != s.modules.owners[id - 1] && !s.modules.allowed[id - 1].contains(caller_id) {
        Ok(false)
    } else {
        Ok(true)
    }
}

impl Multisig {
    /// The status of module `module`; fails with "Unknown address" for an
    /// unregistered module.
    pub fn get_module_status(&self, module: Address) -> (r: Result<bool, MultisigError>)
        ensures
            module_id(self@.modules, module) == 0 ==> r == Err::<bool, MultisigError>(
                MultisigError::UnknownAddress,
            ),
            module_id(self@.modules, module) != 0 ==> r == Ok::<bool, MultisigError>(
                self@.modules.status[module_id(self@.modules, module) - 1],
            ),
    {
        let id = self.modules_ref().get_id(module);
        if id == 0 {
            return Err(MultisigError::UnknownAddress);
        }
        Ok(self.modules_ref().status_of(id))
    }

    /// Registers module `module` with the user numbered `owner_id` as its
    /// owner: the storage writes that adding a module makes. The module
    /// starts disabled; its id comes back.
    pub fn insert_module(&mut self, module: Address, owner_id: u64) -> (r: Result<ModuleId, MultisigError>)
        requires
            old(self).tables_ok(),
        ensures
            final(self).tables_ok(),
            module_id(old(self)@.modules, module) != 0 ==> r == Err::<ModuleId, MultisigError>(
                MultisigError::AddressAlreadyRegistered,
            ) && final(self)@ == old(self)@,
            module_id(old(self)@.modules, module) == 0 && old(self)@.modules.addresses.len()
                < usize::MAX ==> r == Ok::<ModuleId, MultisigError>(
                (old(self)@.modules.addresses.len() + 1) as u64,
            ) && final(self)@ == (MultisigState {
                modules: ModulesView {
                    addresses: old(self)@.modules.addresses.push(module),
                    owners: old(self)@.modules.owners.push(owner_id),
                    status: old(self)@.modules.status.push(false),
                    allowed: old(self)@.modules.allowed.push(Seq::empty()),
                },
                ..old(self)@
            }),
            module_id(old(self)@.modules, module) == 0 && old(self)@.modules.addresses.len()
                >= usize::MAX ==> r == Err::<ModuleId, MultisigError>(MultisigError::ArithmeticOverflow)
                && final(self)@ == old(self)@,
    {
        let mut registry = self.take_modules();
        let r = registry.insert_new(module, owner_id);
        self.put_modules(registry);
        r
    }

    /// Fails unless the caller may manage module `id`: it must be allowed to
    /// propose and own the module.
    pub fn require_module_owner_caller(&self, ctx: &TxContext, id: ModuleId) -> (r: Result<
        (),
        MultisigError,
    >)
        requires
            self.tables_ok(),
            1 <= id <= self@.modules.addresses.len(),
        ensures
            match module_owner_error(self@, ctx.caller, id) {
                Some(e) => r == Err::<(), MultisigError>(e),
                None => r is Ok,
            },
    {
        let (caller_id, caller_role) = self.get_caller_id_and_role(ctx);
        caller_role.require_can_propose()?;
        if caller_id != self.modules_ref().owner_of(id) {
            return Err(MultisigError::OnlyModuleOwner);
        }
        Ok(())
    }

    /// The owner of a module sets its status.
    pub fn set_module_status_common(&mut self, ctx: &TxContext, module: Address, status: bool) -> (r:
        Result<(), MultisigError>)
        requires
            old(self).tables_ok(),
        ensures
            final(self).tables_ok(),
            match set_module_status_outcome(old(self)@, ctx.caller, module, status) {
                Ok(t) => r is Ok && final(self)@ == t,
                Err(e) => r == Err::<(), MultisigError>(e) && final(self)@ == old(self)@,
            },
    {
        let id = self.modules_ref().get_id(module);
        if id == 0 {
            return Err(MultisigError::UnknownAddress);
        }
        self.require_module_owner_caller(ctx, id)?;
        let ghost s = self@;
        let mut registry = self.take_modules();
        registry.set_status(id, status);
        self.put_modules(registry);
        assert(self@ == with_module_status(s, id, status));
        Ok(())
    }

    /// The owner of a module enables it.
    pub fn enable_module(&mut self, ctx: &TxContext, module: Address) -> (r: Result<(), MultisigError>)
        requires
            old(self).tables_ok(),
        ensures
            final(self).tables_ok(),
            match set_module_status_outcome(old(self)@, ctx.caller, module, true) {
                Ok(t) => r is Ok && final(self)@ == t,
                Err(e) => r == Err::<(), MultisigError>(e) && final(self)@ == old(self)@,
            },
    {
        self.set_module_status_common(ctx, module, true)
    }

    /// The owner of a module disables it.
    pub fn disable_module(&mut self, ctx: &TxContext, module: Address) -> (r: Result<(), MultisigError>)
        requires
            old(self).tables_ok(),
        ensures
            final(self).tables_ok(),
            match set_module_status_outcome(old(self)@, ctx.caller, module, false) {
                Ok(t) => r is Ok && final(self)@ == t,
                Err(e) => r == Err::<(), MultisigError>(e) && final(self)@ == old(self)@,
            },
    {
        self.set_module_status_common(ctx, module, false)
    }

    /// The owner of a module lets each of `addresses`, who must be allowed
    /// to propose, act through it.
    pub fn add_additional_allowed_addresses(
        &mut self,
        ctx: &TxContext,
        module: Address,
        addresses: &Vec<Address>,
    ) -> (r: Result<(), MultisigError>)
        requires
            old(self).tables_ok(),
        ensures
            final(self).tables_ok(),
            match change_allowed_outcome(old(self)@, ctx.caller, module, addresses@, true) {
                Ok(t) => r is Ok && final(self)@ == t,
                Err(e) => r == Err::<(), MultisigError>(e) && final(self)@ == old(self)@,
            },
    {
        let id = self.modules_ref().get_id(module);
        if id == 0 {
            return Err(MultisigError::UnknownAddress);
        }
        self.require_module_owner_caller(ctx, id)?;
        let ghost s = self@;
        let mut set = self.modules_ref().allowed_copy(id);
        let mut i: usize = 0;
        while i < addresses.len()
            invariant
                self@ == s,
                self.tables_ok(),
                i <= addresses@.len(),
                id == module_id(s.modules, module),
                1 <= id <= s.modules.addresses.len(),
                module_owner_error(s, ctx.caller, id) is None,
                add_allowed(s, s.modules.allowed[id - 1], addresses@.subrange(0, i as int)) == Ok::<
                    Seq<u64>,
                    MultisigError,
                >(set@),
            decreases addresses.len() - i,
        {
            proof {
                assert(addresses@.subrange(0, i + 1).drop_last() =~= addresses@.subrange(0, i as int));
                assert(addresses@.subrange(0, i + 1).last() == addresses@[i as int]);
            }
            let (user, role) = self.get_id_and_role(addresses[i]);
            if !role.can_propose() {
                proof {
                    lemma_add_allowed_failure_sticks(s, s.modules.allowed[id - 1], addresses@, i + 1);
                }
                return Err(MultisigError::OnlyProposersCanPropose);
            }
            set.insert(user);
            i = i + 1;
        }
        proof {
            assert(addresses@.subrange(0, addresses@.len() as int) =~= addresses@);
        }
        let mut registry = self.take_modules();
        registry.set_allowed(id, set);
        self.put_modules(registry);
        assert(self@ == with_allowed(s, id, set@));
        Ok(())
    }

    /// The owner of a module takes each of `addresses` off its list of
    /// allowed users; each must be on it.
    pub fn remove_additional_allowed_addresses(
        &mut self,
        ctx: &TxContext,
        module: Address,
        addresses: &Vec<Address>,
    ) -> (r: Result<(), MultisigError>)
        requires
            old(self).tables_ok(),
        ensures
            final(self).tables_ok(),
            match change_allowed_outcome(old(self)@, ctx.caller, module, addresses@, false) {
                Ok(t) => r is Ok && final(self)@ == t,
                Err(e) => r == Err::<(), MultisigError>(e) && final(self)@ == old(self)@,
            },
    {
        let id = self.modules_ref().get_id(module);
        if id == 0 {
            return Err(MultisigError::UnknownAddress);
        }
        self.require_module_owner_caller(ctx, id)?;
        let ghost s = self@;
        let mut set = self.modules_ref().allowed_copy(id);
        let mut i: usize = 0;
        while i < addresses.len()
            invariant
                self@ == s,
                self.tables_ok(),
                i <= addresses@.len(),
                id == module_id(s.modules, module),
                1 <= id <= s.modules.addresses.len(),
                module_owner_error(s, ctx.caller, id) is None,
                remove_allowed(s, s.modules.allowed[id - 1], addresses@.subrange(0, i as int)) == Ok::<
                    Seq<u64>,
                    MultisigError,
                >(set@),
            decreases addresses.len() - i,
        {
            proof {
                assert(addresses@.subrange(0, i + 1).drop_last() =~= addresses@.subrange(0, i as int));
                assert(addresses@.subrange(0, i + 1).last() == addresses@[i as int]);
            }
            let user = self.get_user_id(addresses[i]);
            if user == 0 {
                proof {
                    lemma_remove_allowed_failure_sticks(s, s.modules.allowed[id - 1], addresses@, i + 1);
                }
                return Err(MultisigError::UnknownAddress);
            }
            let removed = set.swap_remove(user);
            if !removed {
                proof {
                    lemma_remove_allowed_failure_sticks(s, s.modules.allowed[id - 1], addresses@, i + 1);
                }
                return Err(MultisigError::AddressNotInList);
            }
            i = i + 1;
        }
        proof {
            assert(addresses@.subrange(0, addresses@.len() as int) =~= addresses@);
        }
        let mut registry = self.take_modules();
        registry.set_allowed(id, set);
        self.put_modules(registry);
        assert(self@ == with_allowed(s, id, set@));
        Ok(())
    }

    /// The question put to module `sc_address` about an action of the caller
    /// that carries `egld_value` and `esdt_payments`, if it is asked at all:
    /// it is asked only when it is registered, enabled and the caller is its
    /// owner or an allowed user. The question is the module's `canExecute`
    /// view, called with the caller, the EGLD value and the payments.
    pub fn can_execute_query(
        &self,
        ctx: &TxContext,
        sc_address: Address,
        egld_value: u128,
        esdt_payments: &Vec<EsdtTokenPayment>,
    ) -> (r: Result<Option<CanExecuteQuery>, MultisigError>)
        requires
            self.tables_ok(),
        ensures
            match module_is_asked(self@, ctx.caller, sc_address) {
                Ok(false) => r is Ok && r->Ok_0 is None,
                Ok(true) => r is Ok && r->Ok_0 is Some && r->Ok_0->Some_0@ == (CanExecuteQueryView {
                    module: sc_address,
                    original_caller: ctx.caller,
                    egld_value,
                    esdt_payments: tokens_view(esdt_payments@),
                }),
                Err(e) => r == Err::<Option<CanExecuteQuery>, MultisigError>(e),
            },
    {
        let id = self.modules_ref().get_id(sc_address);
        if id == 0 {
            return Ok(None);
        }
        if !self.modules_ref().status_of(id) {
            return Ok(None);
        }
        let caller_id = self.get_user_id(ctx.caller);
        if caller_id == 0 {
            return Err(MultisigError::UnknownAddress);
        }
        if caller_id != self.modules_ref().owner_of(id) && !self.modules_ref().is_allowed(id, caller_id) {
            return Ok(None);
        }
        let mut payments: Vec<EsdtTokenPayment> = Vec::new();
        let mut i: usize = 0;
        while i < esdt_payments.len()
            invariant
                i <= esdt_payments@.len(),
                payments@.len() == i,
                forall|j: int| 0 <= j < i ==> (#[trigger] payments@[j])@ == esdt_payments@[j]@,
            decreases esdt_payments.len() - i,
        {
            payments.push(esdt_payments[i].duplicate());
            i = i + 1;
        }
        assert(tokens_view(payments@) =~= tokens_view(esdt_payments@));
        Ok(Some(CanExecuteQuery { module: sc_address, original_caller: ctx.caller, egld_value, esdt_payments: payments }))
    }

    /// Whether module `sc_address` lets the caller's action, carrying
    /// `egld_value` and `esdt_payments`, run without signatures: the module
    /// must be asked (see `can_execute_query`), and `module_answer` is what
    /// its `canExecute` view answered to that question.
    pub fn can_execute_action(
        &self,
        ctx: &TxContext,
        sc_address: Address,
        egld_value: u128,
        esdt_payments: &Vec<EsdtTokenPayment>,
        module_answer: bool,
    ) -> (r: Result<bool, MultisigError>)
        requires
            self.tables_ok(),
        ensures
            r == match module_is_asked(self@, ctx.caller, sc_address) {
                Ok(asked) => Ok::<bool, MultisigError>(asked && module_answer),
                Err(e) => Err::<bool, MultisigError>(e),
            },
    {
        match self.can_execute_query(ctx, sc_address, egld_value, esdt_payments)? {
            None => Ok(false),
            Some(_) => Ok(module_answer),
        }
    }
}

/// The question put to a module: may `original_caller` run an action that
/// carries `egld_value` and `esdt_payments`?
#[derive(Clone, Debug)]
pub struct CanExecuteQuery {
    pub module: Address,
    pub original_caller: Address,
    pub egld_value: u128,
    pub esdt_payments: Vec<EsdtTokenPayment>,
}

pub ghost struct CanExecuteQueryView {
    pub module: Address,
    pub original_caller: Address,
    pub egld_value: u128,
    pub esdt_payments: Seq<PaymentView>,
}

impl View for CanExecuteQuery {
    type V = CanExecuteQueryView;

    open spec fn view(&self) -> CanExecuteQueryView {
        CanExecuteQueryView {
            module: self.module,
            original_caller: self.original_caller,
            egld_value: self.egld_value,
            esdt_payments: tokens_view(self.esdt_payments@),
        }
    }
}

/// Once adding an address fails, adding the whole list fails the same way.
proof fn lemma_add_allowed_failure_sticks(s: MultisigState, set: Seq<u64>, addresses: Seq<Address>, k: int)
    requires
        0 <= k <= addresses.len(),
        add_allowed(s, set, addresses.subrange(0, k)) is Err,
    ensures
        add_allowed(s, set, addresses) == add_allowed(s, set, addresses.subrange(0, k)),
    decreases addresses.len() - k,
{
    if k < addresses.len() {
        assert(addresses.subrange(0, k + 1).drop_last() =~= addresses.subrange(0, k));
        lemma_add_allowed_failure_sticks(s, set, addresses, k + 1);
    } else {
        assert(addresses.subrange(0, k) =~= addresses);
    }
}

/// Once removing an address fails, removing the whole list fails the same way.
proof fn lemma_remove_allowed_failure_sticks(
    s: MultisigState,
    set: Seq<u64>,
    addresses: Seq<Address>,
    k: int,
)
    requires
        0 <= k <= addresses.len(),
        remove_allowed(s, set, addresses.subrange(0, k)) is Err,
    ensures
        remove_allowed(s, set, addresses) == remove_allowed(s, set, addresses.subrange(0, k)),
    decreases addresses.len() - k,
{
    if k < addresses.len() {
        assert(addresses.subrange(0, k + 1).drop_last() =~= addresses.subrange(0, k));
        lemma_remove_allowed_failure_sticks(s, set, addresses, k + 1);
    } else {
        assert(addresses.subrange(0, k) =~= addresses);
    }
}

} // verus!
