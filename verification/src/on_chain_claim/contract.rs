//! The claim contract's storage and endpoints.
use vstd::prelude::*;
use std::collections::HashMap;
use crate::common::{
    is_valid_esdt_identifier, payment_eq, valid_esdt_identifier, Address, EsdtTokenPayment,
    PaymentView, TxContext,
};
use crate::unordered_set::UnorderedSet;
use super::address_info::{empty_info, first_claim, AddressInfo};
use super::config::{
    claim_allowed, claim_fits, claimed, current_season, get_current_season, get_missed_epochs,
    missed_epochs, repair_allowed, repair_fits, repairable, repaired, seasons_wf, MAX_REPAIR_GAP,
};
use super::season_info::SeasonInfo;

verus! {

broadcast use vstd::std_specs::hash::group_hash_axioms;

/// Why an endpoint of the claim contract refuses a transaction.
#[derive(Clone, Copy, Debug, PartialEq, Eq, Structural)]
pub enum ClaimError {
    /// "Only user accounts can perform claim"
    OnlyUserAccountsCanClaim,
    /// "Only user accounts can perform claim and repair"
    OnlyUserAccountsCanClaimAndRepair,
    /// "wrong shard"
    WrongShard,
    /// "epoch already claimed"
    EpochAlreadyClaimed,
    /// "Bad payment token/amount"
    BadPayment,
    /// "can't repair streak for address"
    CannotRepairAddress,
    /// "can't repair streak for current epoch"
    CannotRepairCurrentEpoch,
    /// "new season must start after the last season"
    SeasonStartTooEarly,
    /// "season must be the current season"
    SeasonNotCurrent,
    /// "Invalid token ID"
    InvalidTokenId,
    /// "Endpoint can only be called by admins"
    NotAdmin,
    /// "Endpoint can only be called by owner"
    NotOwner,
    /// "incorrect number of ESDT transfers"
    IncorrectNumberOfEsdtTransfers,
    /// A counter would exceed 64 bits; the virtual machine fails such a transaction.
    ArithmeticOverflow,
}

/// An event the claim contract emits, with the address and record it names.
#[derive(Clone, Copy, Debug, PartialEq, Eq, Structural)]
pub enum ClaimEvent {
    /// "new_claim": a record was created by a first claim.
    NewClaim { address: Address, info: AddressInfo },
    /// "new_claim_and_repair": a record was repaired.
    NewClaimAndRepair { address: Address, info: AddressInfo },
    /// "new_update_state": an admin overwrote a record.
    NewUpdateState { address: Address, info: AddressInfo },
}

/// The key under which the record of `address` for season `season_id` is kept.
pub open spec fn season_key(address: u64, season_id: u16) -> u128 {
    (address * 65536 + season_id) as u128
}

/// Different addresses or seasons have different keys.
pub proof fn lemma_season_key_injective(a1: u64, s1: u16, a2: u64, s2: u16)
    ensures
        season_key(a1, s1) == season_key(a2, s2) <==> (a1 == a2 && s1 == s2),
{
    assert(a1 * 65536 + s1 <= u128::MAX) by (nonlinear_arith);
    assert(a2 * 65536 + s2 <= u128::MAX) by (nonlinear_arith);
    if season_key(a1, s1) == season_key(a2, s2) {
        assert(a1 * 65536 + s1 == a2 * 65536 + s2);
        if a1 < a2 {
            assert(a1 * 65536 + 65536 <= a2 * 65536) by (nonlinear_arith)
                requires
                    a1 < a2,
            ;
        } else if a2 < a1 {
            assert(a2 * 65536 + 65536 <= a1 * 65536) by (nonlinear_arith)
                requires
                    a2 < a1,
            ;
        }
    }
}

fn make_season_key(address: u64, season_id: u16) -> (k: u128)
    ensures
        k == season_key(address, season_id),
{
    (address as u128) * 65536 + (season_id as u128)
}

/// The contract's storage as plain values.
pub ghost struct ClaimState {
    pub owner: Address,
    pub admins: Seq<u64>,
    /// The records of the first season, kept where the contract kept them
    /// before it had seasons.
    pub address_info: Map<u64, AddressInfo>,
    /// The records per address and season, under `season_key`.
    pub address_info_by_season: Map<u128, AddressInfo>,
    pub seasons: Seq<SeasonInfo>,
    pub repair_streak_payment: PaymentView,
}

/// The stored record under `k`, if any.
pub open spec fn record_at(m: Map<u128, AddressInfo>, k: u128) -> Option<AddressInfo> {
    if m.contains_key(k) {
        Some(m[k])
    } else {
        None
    }
}

/// The record of `address` in season `season_id`, as `getAddressInfoBySeason`
/// answers: the per-season record, else for the first season the record
/// kept from before seasons, else an empty record.
pub open spec fn info_by_season(s: ClaimState, address: u64, season_id: u16) -> AddressInfo {
    let k = season_key(address, season_id);
    if s.address_info_by_season.contains_key(k) {
        s.address_info_by_season[k]
    } else if season_id == 1 && s.address_info.contains_key(address) {
        s.address_info[address]
    } else {
        empty_info()
    }
}

/// The record of `address` in the season current at `epoch`.
pub open spec fn info_at(s: ClaimState, address: u64, epoch: u64) -> AddressInfo {
    info_by_season(s, address, current_season(s.seasons, epoch).id)
}

/// A record after a claim in `epoch`: a first claim creates it.
pub open spec fn claim_record(rec: Option<AddressInfo>, epoch: u64) -> Result<
    AddressInfo,
    ClaimError,
> {
    match rec {
        None => Ok(first_claim(epoch)),
        Some(info) => if !claim_allowed(info, epoch) {
            Err(ClaimError::EpochAlreadyClaimed)
        } else if !claim_fits(info, epoch) {
            Err(ClaimError::ArithmeticOverflow)
        } else {
            Ok(claimed(info, epoch))
        },
    }
}

/// A record after a repair in `epoch`.
pub open spec fn repair_record(info: AddressInfo, epoch: u64) -> Result<AddressInfo, ClaimError> {
    if !repair_allowed(info, epoch) {
        Err(ClaimError::CannotRepairCurrentEpoch)
    } else if !repair_fits(info, epoch) {
        Err(ClaimError::ArithmeticOverflow)
    } else {
        Ok(repaired(info, epoch))
    }
}

/// What `claim` does. In the first season a claim updates the record kept
/// from before seasons and then also the per-season record, unless it
/// created the former.
pub open spec fn claim_outcome(s: ClaimState, ctx: TxContext) -> Result<ClaimState, ClaimError> {
    let a = ctx.caller;
    let e = ctx.block_epoch;
    let id = current_season(s.seasons, e).id;
    let k = season_key(a, id);
    if ctx.caller_is_contract {
        Err(ClaimError::OnlyUserAccountsCanClaim)
    } else if ctx.caller_shard != ctx.contract_shard {
        Err(ClaimError::WrongShard)
    } else if id == 1 && !s.address_info.contains_key(a) {
        Ok(ClaimState { address_info: s.address_info.insert(a, first_claim(e)), ..s })
    } else {
        let legacy = if id == 1 {
            claim_record(Some(s.address_info[a]), e)
        } else {
            Ok(empty_info())
        };
        match legacy {
            Err(err) => Err(err),
            Ok(l) => match claim_record(record_at(s.address_info_by_season, k), e) {
                Err(err) => Err(err),
                Ok(r) => Ok(
                    ClaimState {
                        address_info: if id == 1 {
                            s.address_info.insert(a, l)
                        } else {
                            s.address_info
                        },
                        address_info_by_season: s.address_info_by_season.insert(k, r),
                        ..s
                    },
                ),
            },
        }
    }
}

/// What `claimAndRepair` does with a payment.
pub open spec fn claim_and_repair_outcome(
    s: ClaimState,
    ctx: TxContext,
    payment: PaymentView,
) -> Result<ClaimState, ClaimError> {
    let a = ctx.caller;
    let e = ctx.block_epoch;
    let id = current_season(s.seasons, e).id;
    let k = season_key(a, id);
    if ctx.caller_is_contract {
        Err(ClaimError::OnlyUserAccountsCanClaimAndRepair)
    } else if ctx.caller_shard != ctx.contract_shard {
        Err(ClaimError::WrongShard)
    } else if payment != s.repair_streak_payment {
        Err(ClaimError::BadPayment)
    } else if info_by_season(s, a, id).total_epochs_claimed == 0 {
        Err(ClaimError::CannotRepairAddress)
    } else if id == 1 {
        let stored = if s.address_info.contains_key(a) {
            s.address_info[a]
        } else {
            empty_info()
        };
        match repair_record(stored, e) {
            Err(err) => Err(err),
            Ok(r) => Ok(ClaimState { address_info: s.address_info.insert(a, r), ..s }),
        }
    } else {
        let stored = if s.address_info_by_season.contains_key(k) {
            s.address_info_by_season[k]
        } else {
            empty_info()
        };
        match repair_record(stored, e) {
            Err(err) => Err(err),
            Ok(r) => Ok(
                ClaimState { address_info_by_season: s.address_info_by_season.insert(k, r), ..s },
            ),
        }
    }
}

/// The event a successful claim emits: "new_claim" with the new record
/// when the claim created one, and none when it only updated records.
pub open spec fn claim_event(s: ClaimState, ctx: TxContext) -> Option<ClaimEvent> {
    let a = ctx.caller;
    let e = ctx.block_epoch;
    let id = current_season(s.seasons, e).id;
    if id == 1 && !s.address_info.contains_key(a) {
        Some(ClaimEvent::NewClaim { address: a, info: first_claim(e) })
    } else if !s.address_info_by_season.contains_key(season_key(a, id)) {
        Some(ClaimEvent::NewClaim { address: a, info: first_claim(e) })
    } else {
        None
    }
}

/// What `claimAndRepair` does with the payments of the call: it takes a
/// single payment.
pub open spec fn claim_and_repair_payments_outcome(
    s: ClaimState,
    ctx: TxContext,
    payments: Seq<PaymentView>,
) -> Result<ClaimState, ClaimError> {
    if ctx.caller_is_contract {
        Err(ClaimError::OnlyUserAccountsCanClaimAndRepair)
    } else if ctx.caller_shard != ctx.contract_shard {
        Err(ClaimError::WrongShard)
    } else if payments.len() != 1 {
        Err(ClaimError::IncorrectNumberOfEsdtTransfers)
    } else {
        claim_and_repair_outcome(s, ctx, payments[0])
    }
}

/// The event a successful repair emits: "new_claim_and_repair" with the
/// caller and its repaired record in `t`, the storage after the repair.
pub open spec fn repair_event(t: ClaimState, ctx: TxContext) -> ClaimEvent {
    let a = ctx.caller;
    let id = current_season(t.seasons, ctx.block_epoch).id;
    ClaimEvent::NewClaimAndRepair {
        address: a,
        info: if id == 1 {
            t.address_info[a]
        } else {
            t.address_info_by_season[season_key(a, id)]
        },
    }
}

/// The payments as plain values.
pub open spec fn payments_view(v: Seq<EsdtTokenPayment>) -> Seq<PaymentView> {
    v.map_values(|p: EsdtTokenPayment| p@)
}

/// The claim contract: its storage.
pub struct OnChainClaimContract {
    owner: Address,
    admins: UnorderedSet,
    address_info: HashMap<u64, AddressInfo>,
    address_info_by_season: HashMap<u128, AddressInfo>,
    seasons: Vec<SeasonInfo>,
    repair_streak_payment: EsdtTokenPayment,
}

impl View for OnChainClaimContract {
    type V = ClaimState;

    closed spec fn view(&self) -> ClaimState {
        ClaimState {
            owner: self.owner,
            admins: self.admins@,
            address_info: self.address_info@,
            address_info_by_season: self.address_info_by_season@,
            seasons: self.seasons@,
            repair_streak_payment: self.repair_streak_payment@,
        }
    }
}

/// What the storage of the claim contract always satisfies: the seasons are
/// numbered in order from the first, and the repair payment is one unit of a
/// valid token.
pub open spec fn claim_state_wf(s: ClaimState) -> bool {
    &&& seasons_wf(s.seasons)
    &&& valid_esdt_identifier(s.repair_streak_payment.token_identifier)
    &&& s.repair_streak_payment.amount == 1
}

/// Fails with "wrong shard" unless `address_shard`, the shard of the
/// address in question, is the contract's own shard.
pub fn require_same_shard(ctx: &TxContext, address_shard: u32) -> (r: Result<(), ClaimError>)
    ensures
        address_shard == ctx.contract_shard ==> r is Ok,
        address_shard != ctx.contract_shard ==> r == Err::<(), ClaimError>(ClaimError::WrongShard),
{
    if address_shard != ctx.contract_shard {
        return Err(ClaimError::WrongShard);
    }
    Ok(())
}

impl OnChainClaimContract {
    pub open spec fn wf(&self) -> bool {
        claim_state_wf(self@)
    }

    /// Deploys the contract: the caller becomes owner and admin, the first
    /// season starts at epoch 0, and repairs cost one unit of the given token.
    pub fn init(ctx: &TxContext, repair_streak_token_id: Vec<u8>, repair_streak_token_nonce: u64) -> (r:
        Result<Self, ClaimError>)
        ensures
            match r {
                Ok(c) => {
                    &&& valid_esdt_identifier(repair_streak_token_id@)
                    &&& c.wf()
                    &&& c@.owner == ctx.caller
                    &&& c@.admins == seq![ctx.caller]
                    &&& c@.address_info == Map::<u64, AddressInfo>::empty()
                    &&& c@.address_info_by_season == Map::<u128, AddressInfo>::empty()
                    &&& c@.seasons == seq![SeasonInfo { id: 1, start_epoch: 0 }]
                    &&& c@.repair_streak_payment == (PaymentView {
                        token_identifier: repair_streak_token_id@,
                        token_nonce: repair_streak_token_nonce,
                        amount: 1,
                    })
                },
                Err(e) => e == ClaimError::InvalidTokenId && !valid_esdt_identifier(
                    repair_streak_token_id@,
                ),
            },
    {
        if !is_valid_esdt_identifier(&repair_streak_token_id) {
            return Err(ClaimError::InvalidTokenId);
        }
        let mut admins = UnorderedSet::new();
        admins.insert(ctx.caller);
        let mut seasons: Vec<SeasonInfo> = Vec::new();
        seasons.push(SeasonInfo::new(1, 0));
        let c = OnChainClaimContract {
            owner: ctx.caller,
            admins,
            address_info: HashMap::new(),
            address_info_by_season: HashMap::new(),
            seasons,
            repair_streak_payment: EsdtTokenPayment::new(
                repair_streak_token_id,
                repair_streak_token_nonce,
                1,
            ),
        };
        assert(c@.admins =~= seq![ctx.caller]);
        Ok(c)
    }

    /// Upgrading keeps the storage, except that a storage with no seasons
    /// gets the first season, numbered 1 and starting at epoch 0. A deployed
    /// contract always has seasons, so for it nothing changes.
    pub fn upgrade(&mut self)
        ensures
            old(self)@.seasons.len() == 0 ==> final(self)@ == (ClaimState {
                seasons: seq![SeasonInfo { id: 1, start_epoch: 0 }],
                ..old(self)@
            }),
            old(self)@.seasons.len() != 0 ==> final(self)@ == old(self)@,
            old(self).wf() ==> final(self).wf(),
    {
        if self.seasons.len() == 0 {
            self.seasons.push(SeasonInfo::new(1, 0));
            assert(self.seasons@ =~= seq![SeasonInfo { id: 1, start_epoch: 0 }]);
        }
    }

    pub fn is_admin(&self, address: Address) -> (b: bool)
        ensures
            b == self@.admins.contains(address),
    {
        self.admins.contains(address)
    }

    /// The admins, in the order they were added.
    pub fn admins(&self) -> (v: Vec<u64>)
        ensures
            v@ == self@.admins,
    {
        self.admins.to_vec()
    }

    fn require_caller_is_admin(&self, ctx: &TxContext) -> (r: Result<(), ClaimError>)
        ensures
            r is Ok <==> self@.admins.contains(ctx.caller),
            r is Err ==> r == Err::<(), ClaimError>(ClaimError::NotAdmin),
    {
        if self.admins.contains(ctx.caller) {
            Ok(())
        } else {
            Err(ClaimError::NotAdmin)
        }
    }

    /// The owner makes `address` an admin.
    pub fn add_admin(&mut self, ctx: &TxContext, address: Address) -> (r: Result<(), ClaimError>)
        requires
            old(self).wf(),
        ensures
            final(self).wf(),
            r is Ok <==> ctx.caller == old(self)@.owner,
            r is Err ==> r == Err::<(), ClaimError>(ClaimError::NotOwner) && final(self)@
                == old(self)@,
            r is Ok ==> final(self)@ == (ClaimState {
                admins: if old(self)@.admins.contains(address) {
                    old(self)@.admins
                } else {
                    old(self)@.admins.push(address)
                },
                ..old(self)@
            }),
    {
        if ctx.caller != self.owner {
            return Err(ClaimError::NotOwner);
        }
        self.admins.insert(address);
        Ok(())
    }

    /// The owner takes the admin role from `address`.
    pub fn remove_admin(&mut self, ctx: &TxContext, address: Address) -> (r: Result<
        (),
        ClaimError,
    >)
        requires
            old(self).wf(),
        ensures
            final(self).wf(),
            r is Ok <==> ctx.caller == old(self)@.owner,
            r is Err ==> r == Err::<(), ClaimError>(ClaimError::NotOwner) && final(self)@
                == old(self)@,
            r is Ok ==> {
                &&& final(self)@.admins.to_set() == old(self)@.admins.to_set().remove(address)
                &&& final(self)@ == (ClaimState { admins: final(self)@.admins, ..old(self)@ })
            },
    {
        if ctx.caller != self.owner {
            return Err(ClaimError::NotOwner);
        }
        self.admins.swap_remove(address);
        Ok(())
    }

    /// The number of epochs missed since the last claim.
    pub fn get_missed_epochs(&self, current_epoch: u64, last_epoch_claimed: u64) -> (r: u64)
        ensures
            r == missed_epochs(current_epoch, last_epoch_claimed),
    {
        get_missed_epochs(current_epoch, last_epoch_claimed)
    }

    /// The season current at `epoch`.
    pub fn get_current_season(&self, epoch: u64) -> (r: SeasonInfo)
        requires
            self.wf(),
        ensures
            r == current_season(self@.seasons, epoch),
    {
        get_current_season(&self.seasons, epoch)
    }

    /// All seasons, in order.
    pub fn get_seasons(&self) -> (v: Vec<SeasonInfo>)
        ensures
            v@ == self@.seasons,
    {
        self.seasons.clone()
    }

    /// The price of a repair.
    pub fn get_repair_streak_payment(&self) -> (p: EsdtTokenPayment)
        ensures
            p@ == self@.repair_streak_payment,
    {
        self.repair_streak_payment.duplicate()
    }

    /// The record kept for `address` from before seasons, if any.
    pub fn address_info(&self, address: Address) -> (r: Option<AddressInfo>)
        ensures
            r == (if self@.address_info.contains_key(address) {
                Some(self@.address_info[address])
            } else {
                None
            }),
    {
        match self.address_info.get(&address) {
            Some(i) => Some(*i),
            None => None,
        }
    }

    /// The record of `address` in season `season_id`.
    pub fn get_address_info_by_season(&self, address: Address, season_id: u16) -> (r: AddressInfo)
        ensures
            r == info_by_season(self@, address, season_id),
    {
        let k = make_season_key(address, season_id);
        match self.address_info_by_season.get(&k) {
            Some(i) => {
                return *i;
            },
            None => {},
        }
        if season_id == 1 {
            match self.address_info.get(&address) {
                Some(i) => {
                    return *i;
                },
                None => {},
            }
        }
        AddressInfo::default()
    }

    /// The record of `address` in the season current at `epoch`.
    pub fn get_address_info(&self, address: Address, epoch: u64) -> (r: AddressInfo)
        requires
            self.wf(),
        ensures
            r == info_at(self@, address, epoch),
    {
        let season = get_current_season(&self.seasons, epoch);
        self.get_address_info_by_season(address, season.id)
    }

    /// Whether `address` may repair its streak at `epoch` without the last-round
    /// allowance: it has claimed, and missed between 1 and `MAX_REPAIR_GAP` epochs.
    pub fn can_be_repaired(&self, address: Address, epoch: u64) -> (b: bool)
        requires
            self.wf(),
        ensures
            b == repairable(info_at(self@, address, epoch), epoch),
    {
        let info = self.get_address_info(address, epoch);
        if info.total_epochs_claimed == 0 {
            return false;
        }
        let missed = get_missed_epochs(epoch, info.last_epoch_claimed);
        missed > 0 && missed <= MAX_REPAIR_GAP
    }

    /// Records a claim in `current_epoch`.
    pub fn increment_address_info(address_info: &mut AddressInfo, current_epoch: u64) -> (r:
        Result<(), ClaimError>)
        ensures
            match claim_record(Some(*old(address_info)), current_epoch) {
                Ok(n) => r is Ok && *final(address_info) == n,
                Err(e) => r == Err::<(), ClaimError>(e) && *final(address_info) == *old(
                    address_info,
                ),
            },
    {
        if address_info.last_epoch_claimed >= current_epoch {
            return Err(ClaimError::EpochAlreadyClaimed);
        }
        if address_info.total_epochs_claimed == u64::MAX {
            return Err(ClaimError::ArithmeticOverflow);
        }
        if address_info.last_epoch_claimed + 1 == current_epoch {
            if address_info.current_streak == u64::MAX {
                return Err(ClaimError::ArithmeticOverflow);
            }
            address_info.current_streak = address_info.current_streak + 1;
        } else {
            address_info.current_streak = 1;
        }
        address_info.total_epochs_claimed = address_info.total_epochs_claimed + 1;
        address_info.last_epoch_claimed = current_epoch;
        if address_info.best_streak < address_info.current_streak {
            address_info.best_streak = address_info.current_streak;
        }
        Ok(())
    }

    /// Counts the missed epochs and `current_epoch` as claimed, when at least
    /// one and at most `MAX_REPAIR_GAP + 1` epochs were missed. The extra
    /// epoch spares a user whose transaction lands in the round after the
    /// last repairable epoch.
    pub fn repair_address_info_streak(caller: Address, address_info: &mut AddressInfo, current_epoch: u64) -> (r:
        Result<ClaimEvent, ClaimError>)
        ensures
            match repair_record(*old(address_info), current_epoch) {
                Ok(n) => r == Ok::<ClaimEvent, ClaimError>(ClaimEvent::NewClaimAndRepair { address: caller, info: n })
                    && *final(address_info) == n,
                Err(e) => r == Err::<ClaimEvent, ClaimError>(e) && *final(address_info) == *old(
                    address_info,
                ),
            },
    {
        let missed = get_missed_epochs(current_epoch, address_info.last_epoch_claimed);
        if !(missed > 0 && missed <= MAX_REPAIR_GAP + 1) {
            return Err(ClaimError::CannotRepairCurrentEpoch);
        }
        let gained = missed + 1;
        if address_info.current_streak > u64::MAX - gained || address_info.total_epochs_claimed
            > u64::MAX - gained {
            return Err(ClaimError::ArithmeticOverflow);
        }
        address_info.current_streak = address_info.current_streak + gained;
        address_info.total_epochs_claimed = address_info.total_epochs_claimed + gained;
        address_info.last_epoch_claimed = current_epoch;
        if address_info.best_streak < address_info.current_streak {
            address_info.best_streak = address_info.current_streak;
        }
        Ok(ClaimEvent::NewClaimAndRepair { address: caller, info: *address_info })
    }

    /// A user claims for the current epoch.
    /// Returns the event the claim emits, if any.
    pub fn claim(&mut self, ctx: &TxContext) -> (r: Result<Option<ClaimEvent>, ClaimError>)
        requires
            old(self).wf(),
        ensures
            final(self).wf(),
            match claim_outcome(old(self)@, *ctx) {
                Ok(s) => r == Ok::<Option<ClaimEvent>, ClaimError>(claim_event(old(self)@, *ctx))
                    && final(self)@ == s,
                Err(e) => r == Err::<Option<ClaimEvent>, ClaimError>(e) && final(self)@ == old(self)@,
            },
    {
        if ctx.caller_is_contract {
            return Err(ClaimError::OnlyUserAccountsCanClaim);
        }
        require_same_shard(ctx, ctx.caller_shard)?;
        let a = ctx.caller;
        let e = ctx.block_epoch;
        let season = get_current_season(&self.seasons, e);
        let mut legacy = AddressInfo::default();
        if season.id == 1 {
            match self.address_info.get(&a) {
                None => {
                    let info = AddressInfo::new_with_epoch(e);
                    self.address_info.insert(a, info);
                    return Ok(Some(ClaimEvent::NewClaim { address: a, info }));
                },
                Some(info) => {
                    legacy = *info;
                    Self::increment_address_info(&mut legacy, e)?;
                },
            }
        }
        let k = make_season_key(a, season.id);
        let mut event: Option<ClaimEvent> = None;
        let by_season = match self.address_info_by_season.get(&k) {
            None => {
                let info = AddressInfo::new_with_epoch(e);
                event = Some(ClaimEvent::NewClaim { address: a, info });
                info
            },
            Some(info) => {
                let mut rec = *info;
                Self::increment_address_info(&mut rec, e)?;
                rec
            },
        };
        if season.id == 1 {
            self.address_info.insert(a, legacy);
        }
        self.address_info_by_season.insert(k, by_season);
        Ok(event)
    }

    /// A user pays the repair price, the single payment of the call, to
    /// count the missed epochs and the current one as claimed. On success
    /// the payment is burned; it is returned so that it can be, with the
    /// event the repair emits.
    pub fn claim_and_repair(&mut self, ctx: &TxContext, payments: &Vec<EsdtTokenPayment>) -> (r: Result<
        (EsdtTokenPayment, ClaimEvent),
        ClaimError,
    >)
        requires
            old(self).wf(),
        ensures
            final(self).wf(),
            match claim_and_repair_payments_outcome(old(self)@, *ctx, payments_view(payments@)) {
                Ok(s) => r is Ok && final(self)@ == s && r->Ok_0.0@ == payments@[0]@
                    && r->Ok_0.1 == repair_event(s, *ctx),
                Err(e) => r is Err && r->Err_0 == e && final(self)@ == old(self)@,
            },
    {
        if ctx.caller_is_contract {
            return Err(ClaimError::OnlyUserAccountsCanClaimAndRepair);
        }
        require_same_shard(ctx, ctx.caller_shard)?;
        if payments.len() != 1 {
            return Err(ClaimError::IncorrectNumberOfEsdtTransfers);
        }
        let payment = &payments[0];
        assert(payments_view(payments@)[0] == payment@);
        if !payment_eq(payment, &self.repair_streak_payment) {
            return Err(ClaimError::BadPayment);
        }
        let a = ctx.caller;
        let e = ctx.block_epoch;
        let season = get_current_season(&self.seasons, e);
        let info = self.get_address_info_by_season(a, season.id);
        if info.total_epochs_claimed == 0 {
            return Err(ClaimError::CannotRepairAddress);
        }
        if season.id == 1 {
            let mut rec = match self.address_info.get(&a) {
                Some(i) => *i,
                None => AddressInfo::default(),
            };
            let event = Self::repair_address_info_streak(a, &mut rec, e)?;
            self.address_info.insert(a, rec);
            return Ok((payment.duplicate(), event));
        } else {
            let k = make_season_key(a, season.id);
            let mut rec = match self.address_info_by_season.get(&k) {
                Some(i) => *i,
                None => AddressInfo::default(),
            };
            let event = Self::repair_address_info_streak(a, &mut rec, e)?;
            self.address_info_by_season.insert(k, rec);
            return Ok((payment.duplicate(), event));
        }
    }

    /// An admin adds a season starting at `epoch`, which must come after the
    /// start of the last season and after the current epoch.
    pub fn add_season(&mut self, ctx: &TxContext, epoch: u64) -> (r: Result<(), ClaimError>)
        requires
            old(self).wf(),
        ensures
            final(self).wf(),
            ({
                let s = old(self)@;
                let last = s.seasons.last();
                if !s.admins.contains(ctx.caller) {
                    r == Err::<(), ClaimError>(ClaimError::NotAdmin) && final(self)@ == s
                } else if !(last.start_epoch < epoch && ctx.block_epoch < epoch) {
                    r == Err::<(), ClaimError>(ClaimError::SeasonStartTooEarly) && final(self)@
                        == s
                } else if last.id == u16::MAX {
                    r == Err::<(), ClaimError>(ClaimError::ArithmeticOverflow) && final(self)@
                        == s
                } else {
                    r is Ok && final(self)@ == (ClaimState {
                        seasons: s.seasons.push(
                            SeasonInfo { id: (last.id + 1) as u16, start_epoch: epoch },
                        ),
                        ..s
                    })
                }
            }),
    {
        self.require_caller_is_admin(ctx)?;
        if self.seasons.len() == 0 {
            self.seasons.push(SeasonInfo::new(1, epoch));
            return Ok(());
        }
        let last = self.seasons[self.seasons.len() - 1];
        if !(last.start_epoch < epoch && ctx.block_epoch < epoch) {
            return Err(ClaimError::SeasonStartTooEarly);
        }
        if last.id == u16::MAX {
            return Err(ClaimError::ArithmeticOverflow);
        }
        self.seasons.push(SeasonInfo::new(last.id + 1, epoch));
        proof {
            let s = self.seasons@;
            assert(s.len() == old(self)@.seasons.len() + 1);
            assert forall|i: int, j: int| 0 <= i < j < s.len() implies s[i].start_epoch
                < s[j].start_epoch by {
                if j == s.len() - 1 && i < j - 1 {
                    assert(old(self)@.seasons[i].start_epoch < last.start_epoch);
                }
            }
        }
        Ok(())
    }

    /// An admin overwrites the record of `address` for the current season.
    /// `address_shard` is the shard of `address`. Returns the event emitted.
    pub fn update_state(
        &mut self,
        ctx: &TxContext,
        season: u16,
        address: Address,
        address_shard: u32,
        current_streak: u64,
        last_epoch_claimed: u64,
        total_epochs_claimed: u64,
        best_streak: u64,
    ) -> (r: Result<ClaimEvent, ClaimError>)
        requires
            old(self).wf(),
        ensures
            final(self).wf(),
            ({
                let s = old(self)@;
                let id = current_season(s.seasons, ctx.block_epoch).id;
                let info = AddressInfo {
                    current_streak,
                    last_epoch_claimed,
                    total_epochs_claimed,
                    best_streak,
                };
                if !s.admins.contains(ctx.caller) {
                    r == Err::<ClaimEvent, ClaimError>(ClaimError::NotAdmin) && final(self)@ == s
                } else if address_shard != ctx.contract_shard {
                    r == Err::<ClaimEvent, ClaimError>(ClaimError::WrongShard) && final(self)@ == s
                } else if id != season {
                    r == Err::<ClaimEvent, ClaimError>(ClaimError::SeasonNotCurrent) && final(self)@ == s
                } else if id == 1 {
                    r == Ok::<ClaimEvent, ClaimError>(ClaimEvent::NewUpdateState { address, info }) && final(self)@ == (ClaimState {
                        address_info: s.address_info.insert(address, info),
                        ..s
                    })
                } else {
                    r == Ok::<ClaimEvent, ClaimError>(ClaimEvent::NewUpdateState { address, info }) && final(self)@ == (ClaimState {
                        address_info_by_season: s.address_info_by_season.insert(
                            season_key(address, season),
                            info,
                        ),
                        ..s
                    })
                }
            }),
    {
        self.require_caller_is_admin(ctx)?;
        require_same_shard(ctx, address_shard)?;
        let current = get_current_season(&self.seasons, ctx.block_epoch);
        if current.id != season {
            return Err(ClaimError::SeasonNotCurrent);
        }
        let info = AddressInfo::new(
            current_streak,
            last_epoch_claimed,
            total_epochs_claimed,
            best_streak,
        );
        if current.id == 1 {
            self.address_info.insert(address, info);
        } else {
            let k = make_season_key(address, season);
            self.address_info_by_season.insert(k, info);
        }
        Ok(ClaimEvent::NewUpdateState { address, info })
    }

    /// An admin sets the token whose one unit pays for a repair.
    pub fn set_repair_streak_payment(
        &mut self,
        ctx: &TxContext,
        repair_streak_token_identifier: Vec<u8>,
        repair_streak_token_nonce: u64,
    ) -> (r: Result<(), ClaimError>)
        requires
            old(self).wf(),
        ensures
            final(self).wf(),
            ({
                let s = old(self)@;
                if !s.admins.contains(ctx.caller) {
                    r == Err::<(), ClaimError>(ClaimError::NotAdmin) && final(self)@ == s
                } else if !valid_esdt_identifier(repair_streak_token_identifier@) {
                    r == Err::<(), ClaimError>(ClaimError::InvalidTokenId) && final(self)@ == s
                } else {
                    r is Ok && final(self)@ == (ClaimState {
                        repair_streak_payment: PaymentView {
                            token_identifier: repair_streak_token_identifier@,
                            token_nonce: repair_streak_token_nonce,
                            amount: 1,
                        },
                        ..s
                    })
                }
            }),
    {
        self.require_caller_is_admin(ctx)?;
        self.internal_set_repair_streak_payment(
            repair_streak_token_identifier,
            repair_streak_token_nonce,
        )
    }

    fn internal_set_repair_streak_payment(
        &mut self,
        repair_streak_token_identifier: Vec<u8>,
        repair_streak_token_nonce: u64,
    ) -> (r: Result<(), ClaimError>)
        requires
            old(self).wf(),
        ensures
            final(self).wf(),
            ({
                let s = old(self)@;
                if !valid_esdt_identifier(repair_streak_token_identifier@) {
                    r == Err::<(), ClaimError>(ClaimError::InvalidTokenId) && final(self)@ == s
                } else {
                    r is Ok && final(self)@ == (ClaimState {
                        repair_streak_payment: PaymentView {
                            token_identifier: repair_streak_token_identifier@,
                            token_nonce: repair_streak_token_nonce,
                            amount: 1,
                        },
                        ..s
                    })
                }
            }),
    {
        if !is_valid_esdt_identifier(&repair_streak_token_identifier) {
            return Err(ClaimError::InvalidTokenId);
        }
        self.repair_streak_payment = EsdtTokenPayment::new(
            repair_streak_token_identifier,
            repair_streak_token_nonce,
            1,
        );
        Ok(())
    }
}

} // verus!
