//! The storage of the mystery box and its endpoints.
use vstd::prelude::*;
use crate::common::{
    bytes_eq, is_valid_esdt_identifier, valid_esdt_identifier, Address, EsdtTokenPayment,
    PaymentView, TxContext,
};
use crate::unordered_set::{insert_value, remove_value, UnorderedSet};
use super::config::{
    duplicate_rewards, no_reward, rewards_view, MysteryBoxError, Reward, RewardType, RewardView,
    collection_name, collection_name_bytes, MAX_PERCENTAGE, ROYALTIES, SFT_AMOUNT,
};
use super::rewards::{
    check_reward_validity, get_winning_reward, reward_error, winning_reward,
};

verus! {

/// The position of a reward kind in the cooldown table.
pub open spec fn type_index(t: RewardType) -> int {
    match t {
        RewardType::NoReward => 0,
        RewardType::ExperiencePoints => 1,
        RewardType::MysteryBox => 2,
        RewardType::SFT => 3,
        RewardType::PercentValue => 4,
        RewardType::FixedValue => 5,
        RewardType::CustomReward => 6,
    }
}

/// The number of reward kinds.
pub const REWARD_TYPES: usize = 7;

/// The mystery box's storage as plain values.
pub ghost struct MysteryBoxState {
    pub owner: Address,
    pub mystery_box_token_id: Seq<u8>,
    /// For each kind of reward, the first epoch in which it can be won again.
    pub global_cooldown_epoch: Seq<u64>,
    /// The rewards new boxes hold; empty until the box is set up.
    pub winning_rates: Seq<RewardView>,
    pub mystery_box_uris: Seq<Seq<u8>>,
    pub admins: Seq<Address>,
    /// The nonce of the box tokens created for each list of attributes.
    pub nonce_by_attributes: Seq<(Seq<RewardView>, u64)>,
    /// The last nonce created of the box token. The contract creates every
    /// nonce of its token, one after the other.
    pub last_nonce: u64,
}

pub open spec fn mystery_box_wf(s: MysteryBoxState) -> bool {
    &&& s.global_cooldown_epoch.len() == REWARD_TYPES
    &&& attribute_nonces_wf(s.nonce_by_attributes, s.last_nonce)
}

/// Every nonce created for attributes is between 1 and the last nonce
/// created, and no two entries share a nonce.
pub open spec fn attribute_nonces_wf(list: Seq<(Seq<RewardView>, u64)>, last_nonce: u64) -> bool {
    &&& forall|i: int| 0 <= i < list.len() ==> 1 <= #[trigger] list[i].1 <= last_nonce
    &&& forall|i: int, j: int| 0 <= i < j < list.len() ==> #[trigger] list[i].1 != #[trigger] list[j].1
}

/// A nonce found for `attributes` is the nonce of an entry for them.
pub proof fn lemma_nonce_of_entry(list: Seq<(Seq<RewardView>, u64)>, attributes: Seq<RewardView>)
    requires
        nonce_of(list, attributes) != 0,
    ensures
        exists|i: int| 0 <= i < list.len() && #[trigger] list[i] == (attributes, nonce_of(list, attributes)),
    decreases list.len(),
{
    if list.last().0 == attributes {
        assert(list[list.len() - 1] == (attributes, nonce_of(list, attributes)));
    } else {
        let p = list.drop_last();
        lemma_nonce_of_entry(p, attributes);
        let i = choose|i: int| 0 <= i < p.len() && #[trigger] p[i] == (attributes, nonce_of(p, attributes));
        assert(list[i] == p[i]);
    }
}

/// The nonce of the box tokens created for `attributes`, or 0.
/// The attributes the box tokens of nonce `nonce` were minted with, if any.
pub open spec fn attributes_of(list: Seq<(Seq<RewardView>, u64)>, nonce: u64) -> Option<Seq<RewardView>>
    decreases list.len(),
{
    if list.len() == 0 {
        None
    } else if list.last().1 == nonce {
        Some(list.last().0)
    } else {
        attributes_of(list.drop_last(), nonce)
    }
}

/// The attributes of the box paid: those its nonce was minted with. Where
/// the payment is not a single token they do not matter.
pub open spec fn box_attributes(s: MysteryBoxState, payments: Seq<PaymentView>) -> Option<Seq<RewardView>> {
    if payments.len() == 1 {
        attributes_of(s.nonce_by_attributes, payments[0].token_nonce)
    } else {
        Some(Seq::empty())
    }
}

/// Whether the caller and the payment pass the checks of `openMysteryBox`.
pub open spec fn box_payment_ok(s: MysteryBoxState, ctx: TxContext, payments: Seq<PaymentView>) -> bool {
    &&& !ctx.caller_is_contract
    &&& payments.len() == 1
    &&& payments[0].token_identifier == s.mystery_box_token_id
    &&& payments[0].amount == SFT_AMOUNT
}

/// What `openMysteryBox` does with the box's own attributes: the box paid
/// must have been minted here, and it is opened on the attributes of its
/// nonce.
pub open spec fn open_box_outcome(s: MysteryBoxState, ctx: TxContext, payments: Seq<PaymentView>, draws: Seq<u64>) -> Result<
    (MysteryBoxState, RewardView, Option<MintedView>),
    MysteryBoxError,
> {
    match box_attributes(s, payments) {
        None => if box_payment_ok(s, ctx, payments) {
            Err(MysteryBoxError::UnknownBoxNonce)
        } else {
            open_outcome(s, ctx, payments, Seq::empty(), draws)
        },
        Some(a) => open_outcome(s, ctx, payments, a, draws),
    }
}

pub open spec fn nonce_of(list: Seq<(Seq<RewardView>, u64)>, attributes: Seq<RewardView>) -> u64
    decreases list.len(),
{
    if list.len() == 0 {
        0
    } else if list.last().0 == attributes {
        list.last().1
    } else {
        nonce_of(list.drop_last(), attributes)
    }
}

/// Box tokens to hand out: `payment` is minted. When the attributes had no
/// nonce yet, `created` holds how the new nonce was made.
#[derive(Clone, Debug)]
pub struct MintedTokens {
    pub payment: EsdtTokenPayment,
    pub created: Option<NonceCreation>,
}

/// How a new nonce of the box token is made: `initial_quantity` tokens are
/// kept in the contract, with the collection name, the royalties, the
/// attributes and the box URIs.
#[derive(Clone, Debug)]
pub struct NonceCreation {
    pub initial_quantity: u64,
    pub name: Vec<u8>,
    pub royalties: u64,
    pub attributes: Vec<Reward>,
    pub uris: Vec<Vec<u8>>,
}

pub ghost struct NonceCreationView {
    pub initial_quantity: u64,
    pub name: Seq<u8>,
    pub royalties: u64,
    pub attributes: Seq<RewardView>,
    pub uris: Seq<Seq<u8>>,
}

impl View for NonceCreation {
    type V = NonceCreationView;

    open spec fn view(&self) -> NonceCreationView {
        NonceCreationView {
            initial_quantity: self.initial_quantity,
            name: self.name@,
            royalties: self.royalties,
            attributes: rewards_view(self.attributes@),
            uris: uris_view(self.uris@),
        }
    }
}

pub ghost struct MintedView {
    pub payment: PaymentView,
    pub created: Option<NonceCreationView>,
}

impl View for MintedTokens {
    type V = MintedView;

    open spec fn view(&self) -> MintedView {
        MintedView {
            payment: self.payment@,
            created: match self.created {
                Some(c) => Some(c@),
                None => None,
            },
        }
    }
}

/// How a nonce made for `attributes` in storage `s` is created.
pub open spec fn nonce_creation(s: MysteryBoxState, attributes: Seq<RewardView>) -> NonceCreationView {
    NonceCreationView {
        initial_quantity: SFT_AMOUNT,
        name: collection_name(),
        royalties: ROYALTIES,
        attributes,
        uris: s.mystery_box_uris,
    }
}

/// What minting `amount` boxes with `attributes` does: boxes with the same
/// attributes share a nonce; the first such boxes get a new nonce, the one
/// after the last.
pub open spec fn mint_outcome(s: MysteryBoxState, amount: u128, attributes: Seq<RewardView>) -> Result<
    (MysteryBoxState, MintedView),
    MysteryBoxError,
> {
    let existing = nonce_of(s.nonce_by_attributes, attributes);
    if existing != 0 {
        Ok(
            (
                s,
                MintedView {
                    payment: PaymentView {
                        token_identifier: s.mystery_box_token_id,
                        token_nonce: existing,
                        amount,
                    },
                    created: None,
                },
            ),
        )
    } else if s.last_nonce == u64::MAX {
        Err(MysteryBoxError::ArithmeticOverflow)
    } else {
        let nonce = (s.last_nonce + 1) as u64;
        Ok(
            (
                MysteryBoxState {
                    last_nonce: nonce,
                    nonce_by_attributes: s.nonce_by_attributes.push((attributes, nonce)),
                    ..s
                },
                MintedView {
                    payment: PaymentView {
                        token_identifier: s.mystery_box_token_id,
                        token_nonce: nonce,
                        amount,
                    },
                    created: Some(nonce_creation(s, attributes)),
                },
            ),
        )
    }
}

/// Scanning the rewards of a setup in order: the total of their chances,
/// or the first failure, an overflow of the running total or a reward that
/// may not be set up.
pub open spec fn setup_scan(list: Seq<RewardView>, box_token: Seq<u8>) -> Result<int, MysteryBoxError>
    decreases list.len(),
{
    if list.len() == 0 {
        Ok(0)
    } else {
        match setup_scan(list.drop_last(), box_token) {
            Err(e) => Err(e),
            Ok(acc) => if acc + list.last().percentage_chance > u64::MAX {
                Err(MysteryBoxError::ArithmeticOverflow)
            } else {
                match reward_error(list.last(), box_token) {
                    Some(e) => Err(e),
                    None => Ok(acc + list.last().percentage_chance),
                }
            },
        }
    }
}

/// Once the scan fails, the scan of the whole list fails the same way.
pub proof fn lemma_setup_scan_failure_sticks(list: Seq<RewardView>, box_token: Seq<u8>, k: int)
    requires
        0 <= k <= list.len(),
        setup_scan(list.subrange(0, k), box_token) is Err,
    ensures
        setup_scan(list, box_token) == setup_scan(list.subrange(0, k), box_token),
    decreases list.len() - k,
{
    if k < list.len() {
        assert(list.subrange(0, k + 1).drop_last() =~= list.subrange(0, k));
        lemma_setup_scan_failure_sticks(list, box_token, k + 1);
    } else {
        assert(list.subrange(0, k) =~= list);
    }
}

/// What `setupMysteryBox` does: the caller must be an admin, every reward
/// must be acceptable and their chances must add up to exactly 100%; the
/// list becomes the rewards of new boxes.
pub open spec fn setup_outcome(s: MysteryBoxState, caller: Address, list: Seq<RewardView>) -> Result<
    MysteryBoxState,
    MysteryBoxError,
> {
    if !s.admins.contains(caller) {
        Err(MysteryBoxError::NotAdmin)
    } else {
        match setup_scan(list, s.mystery_box_token_id) {
            Err(e) => Err(e),
            Ok(total) => if total != MAX_PERCENTAGE {
                Err(MysteryBoxError::TotalPercentageNot100)
            } else {
                Ok(MysteryBoxState { winning_rates: list, ..s })
            },
        }
    }
}

/// Whether reward `r` is held back in `epoch` by the cooldown of its kind.
pub open spec fn in_cooldown(s: MysteryBoxState, epoch: u64, r: RewardView) -> bool {
    r.epochs_cooldown != 0 && s.global_cooldown_epoch[type_index(r.reward_type)] > epoch
}

/// The first reward among the draws that is not held back by a cooldown;
/// an empty list of attributes gives the empty reward without a draw.
pub open spec fn first_free_reward(
    s: MysteryBoxState,
    epoch: u64,
    attributes: Seq<RewardView>,
    draws: Seq<u64>,
) -> Option<RewardView>
    decreases draws.len(),
{
    if attributes.len() == 0 {
        Some(no_reward())
    } else if draws.len() == 0 {
        None
    } else if !in_cooldown(s, epoch, winning_reward(attributes, draws[0])) {
        Some(winning_reward(attributes, draws[0]))
    } else {
        first_free_reward(s, epoch, attributes, draws.drop_first())
    }
}

/// The result of opening a box: the reward won and, when it is a box, the
/// new box for the opener.
#[derive(Clone, Debug)]
pub struct OpenedBox {
    pub reward: Reward,
    pub new_box: Option<MintedTokens>,
    /// The box paid, which is burnt.
    pub burned: EsdtTokenPayment,
}

/// What `openMysteryBox` does. The caller must be a user account paying
/// exactly one box token; `attributes` are the rewards that box holds, and
/// `draws` the random numbers from 1 to 100% drawn one after the other until
/// one falls on a reward not held back by a cooldown. That reward's kind is
/// held back for its cooldown from now on; a box won is minted for the
/// opener. The box paid is burnt.
pub open spec fn open_outcome(
    s: MysteryBoxState,
    ctx: TxContext,
    payments: Seq<PaymentView>,
    attributes: Seq<RewardView>,
    draws: Seq<u64>,
) -> Result<(MysteryBoxState, RewardView, Option<MintedView>), MysteryBoxError> {
    if ctx.caller_is_contract {
        Err(MysteryBoxError::OnlyUserAccounts)
    } else if payments.len() != 1 {
        Err(MysteryBoxError::IncorrectNumberOfEsdtTransfers)
    } else if payments[0].token_identifier != s.mystery_box_token_id {
        Err(MysteryBoxError::BadPaymentToken)
    } else if payments[0].amount != SFT_AMOUNT {
        Err(MysteryBoxError::BadPaymentAmount)
    } else {
        match first_free_reward(s, ctx.block_epoch, attributes, draws) {
            None => Err(MysteryBoxError::DrawsExhausted),
            Some(r) => if r.epochs_cooldown != 0 && ctx.block_epoch + r.epochs_cooldown > u64::MAX {
                Err(MysteryBoxError::ArithmeticOverflow)
            } else {
                let t = if r.epochs_cooldown == 0 {
                    s
                } else {
                    MysteryBoxState {
                        global_cooldown_epoch: s.global_cooldown_epoch.update(
                            type_index(r.reward_type),
                            (ctx.block_epoch + r.epochs_cooldown) as u64,
                        ),
                        ..s
                    }
                };
                if r.reward_type == RewardType::MysteryBox {
                    match mint_outcome(t, SFT_AMOUNT as u128, t.winning_rates) {
                        Err(e) => Err(e),
                        Ok((u, m)) => Ok((u, r, Some(m))),
                    }
                } else {
                    Ok((t, r, None))
                }
            },
        }
    }
}


/// Whether two rewards are equal.
pub fn reward_eq(a: &Reward, b: &Reward) -> (r: bool)
    ensures
        r == (a@ == b@),
{
    a.reward_type == b.reward_type && bytes_eq(&a.reward_token_id, &b.reward_token_id) && a.value
        == b.value && bytes_eq(&a.description, &b.description) && a.percentage_chance
        == b.percentage_chance && a.epochs_cooldown == b.epochs_cooldown
}

/// Whether two lists of rewards are equal.
pub fn rewards_eq(a: &Vec<Reward>, b: &Vec<Reward>) -> (r: bool)
    ensures
        r == (rewards_view(a@) == rewards_view(b@)),
{
    if a.len() != b.len() {
        proof {
            assert(rewards_view(a@).len() != rewards_view(b@).len());
        }
        return false;
    }
    let mut i: usize = 0;
    while i < a.len()
        invariant
            a.len() == b.len(),
            i <= a.len(),
            forall|j: int| 0 <= j < i ==> a@[j]@ == b@[j]@,
        decreases a.len() - i,
    {
        if !reward_eq(&a[i], &b[i]) {
            proof {
                assert(rewards_view(a@)[i as int] != rewards_view(b@)[i as int]);
            }
            return false;
        }
        i = i + 1;
    }
    assert(rewards_view(a@) =~= rewards_view(b@));
    true
}

/// The position of a reward kind in the cooldown table.
pub fn reward_type_index(t: RewardType) -> (i: usize)
    ensures
        i == type_index(t),
        i < REWARD_TYPES,
{
    match t {
        RewardType::NoReward => 0,
        RewardType::ExperiencePoints => 1,
        RewardType::MysteryBox => 2,
        RewardType::SFT => 3,
        RewardType::PercentValue => 4,
        RewardType::FixedValue => 5,
        RewardType::CustomReward => 6,
    }
}

pub open spec fn attribute_nonces_view(v: Seq<(Vec<Reward>, u64)>) -> Seq<(Seq<RewardView>, u64)> {
    v.map_values(|e: (Vec<Reward>, u64)| (rewards_view(e.0@), e.1))
}

pub open spec fn uris_view(v: Seq<Vec<u8>>) -> Seq<Seq<u8>> {
    v.map_values(|u: Vec<u8>| u@)
}

pub open spec fn payments_view(v: Seq<EsdtTokenPayment>) -> Seq<PaymentView> {
    v.map_values(|p: EsdtTokenPayment| p@)
}

/// The mystery box contract: its storage.
pub struct MysteryBox {
    owner: Address,
    mystery_box_token_id: Vec<u8>,
    global_cooldown_epoch: Vec<u64>,
    winning_rates: Vec<Reward>,
    mystery_box_uris: Vec<Vec<u8>>,
    admins: UnorderedSet,
    nonce_by_attributes: Vec<(Vec<Reward>, u64)>,
    last_nonce: u64,
}

impl View for MysteryBox {
    type V = MysteryBoxState;

    closed spec fn view(&self) -> MysteryBoxState {
        MysteryBoxState {
            owner: self.owner,
            mystery_box_token_id: self.mystery_box_token_id@,
            global_cooldown_epoch: self.global_cooldown_epoch@,
            winning_rates: rewards_view(self.winning_rates@),
            mystery_box_uris: uris_view(self.mystery_box_uris@),
            admins: self.admins@,
            nonce_by_attributes: attribute_nonces_view(self.nonce_by_attributes@),
            last_nonce: self.last_nonce,
        }
    }
}

impl MysteryBox {
    pub open spec fn wf(&self) -> bool {
        mystery_box_wf(self@)
    }

    /// Deploys the contract for box token `mystery_box_token_id`, which must
    /// be a valid token identifier; the caller becomes owner and admin.
    pub fn init(ctx: &TxContext, mystery_box_token_id: Vec<u8>) -> (r: Result<MysteryBox, MysteryBoxError>)
        ensures
            !valid_esdt_identifier(mystery_box_token_id@) ==> r == Err::<MysteryBox, MysteryBoxError>(
                MysteryBoxError::InvalidTokenId,
            ),
            valid_esdt_identifier(mystery_box_token_id@) ==> r is Ok && r->Ok_0.wf() && r->Ok_0@ == (
            MysteryBoxState {
                owner: ctx.caller,
                mystery_box_token_id: mystery_box_token_id@,
                global_cooldown_epoch: Seq::new(REWARD_TYPES as nat, |i: int| 0u64),
                winning_rates: Seq::empty(),
                mystery_box_uris: Seq::empty(),
                admins: seq![ctx.caller],
                nonce_by_attributes: Seq::empty(),
                last_nonce: 0,
            }),
    {
        if !is_valid_esdt_identifier(&mystery_box_token_id) {
            return Err(MysteryBoxError::InvalidTokenId);
        }
        let mut cooldowns: Vec<u64> = Vec::new();
        let mut i: usize = 0;
        while i < REWARD_TYPES
            invariant
                i <= REWARD_TYPES,
                cooldowns@ == Seq::new(i as nat, |j: int| 0u64),
            decreases REWARD_TYPES - i,
        {
            cooldowns.push(0);
            proof {
                assert(cooldowns@ =~= Seq::new((i + 1) as nat, |j: int| 0u64));
            }
            i = i + 1;
        }
        let mut admins = UnorderedSet::new();
        admins.insert(ctx.caller);
        let c = MysteryBox {
            owner: ctx.caller,
            mystery_box_token_id,
            global_cooldown_epoch: cooldowns,
            winning_rates: Vec::new(),
            mystery_box_uris: Vec::new(),
            admins,
            nonce_by_attributes: Vec::new(),
            last_nonce: 0,
        };
        proof {
            let v = c@;
            assert(v.winning_rates =~= Seq::<RewardView>::empty());
            assert(v.mystery_box_uris =~= Seq::<Seq<u8>>::empty());
            assert(v.nonce_by_attributes =~= Seq::<(Seq<RewardView>, u64)>::empty());
            assert(v.admins =~= seq![ctx.caller]);
        }
        Ok(c)
    }

    /// Whether `address` is an admin.
    pub fn is_admin(&self, address: Address) -> (b: bool)
        ensures
            b == self@.admins.contains(address),
    {
        self.admins.contains(address)
    }

    /// The admins, in the order kept in storage.
    pub fn get_admins(&self) -> (v: Vec<Address>)
        ensures
            v@ == self@.admins,
    {
        self.admins.to_vec()
    }

    /// The owner makes `address` an admin.
    pub fn add_admin(&mut self, ctx: &TxContext, address: Address) -> (r: Result<(), MysteryBoxError>)
        requires
            old(self).wf(),
        ensures
            final(self).wf(),
            r is Ok <==> ctx.caller == old(self)@.owner,
            r is Err ==> r == Err::<(), MysteryBoxError>(MysteryBoxError::NotOwner) && final(self)@
                == old(self)@,
            r is Ok ==> final(self)@ == (MysteryBoxState {
                admins: insert_value(old(self)@.admins, address),
                ..old(self)@
            }),
    {
        if ctx.caller != self.owner {
            return Err(MysteryBoxError::NotOwner);
        }
        self.admins.insert(address);
        Ok(())
    }

    /// The owner takes the admin role from `address`.
    pub fn remove_admin(&mut self, ctx: &TxContext, address: Address) -> (r: Result<(), MysteryBoxError>)
        requires
            old(self).wf(),
        ensures
            final(self).wf(),
            r is Ok <==> ctx.caller == old(self)@.owner,
            r is Err ==> r == Err::<(), MysteryBoxError>(MysteryBoxError::NotOwner) && final(self)@
                == old(self)@,
            r is Ok ==> final(self)@ == (MysteryBoxState {
                admins: remove_value(old(self)@.admins, address),
                ..old(self)@
            }),
    {
        if ctx.caller != self.owner {
            return Err(MysteryBoxError::NotOwner);
        }
        self.admins.swap_remove(address);
        Ok(())
    }

    /// Fails with "Endpoint can only be called by admins" unless the caller is an admin.
    pub fn require_caller_is_admin(&self, ctx: &TxContext) -> (r: Result<(), MysteryBoxError>)
        ensures
            r is Ok <==> self@.admins.contains(ctx.caller),
            r is Err ==> r == Err::<(), MysteryBoxError>(MysteryBoxError::NotAdmin),
    {
        if !self.is_admin(ctx.caller) {
            return Err(MysteryBoxError::NotAdmin);
        }
        Ok(())
    }

    pub fn get_mystery_box_token_identifier(&self) -> (t: Vec<u8>)
        ensures
            t@ == self@.mystery_box_token_id,
    {
        self.mystery_box_token_id.clone()
    }

    /// The first epoch in which a reward of kind `reward_type` can be won again.
    pub fn get_global_cooldown_epoch(&self, reward_type: RewardType) -> (e: u64)
        requires
            self.wf(),
        ensures
            e == self@.global_cooldown_epoch[type_index(reward_type)],
    {
        self.global_cooldown_epoch[reward_type_index(reward_type)]
    }

    /// The rewards new boxes hold.
    pub fn get_winning_rates(&self) -> (v: Vec<Reward>)
        ensures
            rewards_view(v@) == self@.winning_rates,
    {
        duplicate_rewards(&self.winning_rates)
    }

    pub fn get_mystery_box_uris(&self) -> (v: Vec<Vec<u8>>)
        ensures
            uris_view(v@) == self@.mystery_box_uris,
    {
        let mut out: Vec<Vec<u8>> = Vec::new();
        let mut i: usize = 0;
        while i < self.mystery_box_uris.len()
            invariant
                i <= self.mystery_box_uris@.len(),
                out@.len() == i,
                forall|j: int| 0 <= j < i ==> out@[j]@ == self.mystery_box_uris@[j]@,
            decreases self.mystery_box_uris.len() - i,
        {
            out.push(self.mystery_box_uris[i].clone());
            i = i + 1;
        }
        assert(uris_view(out@) =~= uris_view(self.mystery_box_uris@));
        out
    }

    /// The nonce of the box tokens created for `attributes`, or 0.
    fn find_nonce(&self, attributes: &Vec<Reward>) -> (n: u64)
        ensures
            n == nonce_of(self@.nonce_by_attributes, rewards_view(attributes@)),
    {
        let ghost list = self@.nonce_by_attributes;
        let mut i: usize = self.nonce_by_attributes.len();
        proof {
            assert(list.subrange(0, i as int) =~= list);
        }
        while i > 0
            invariant
                i <= list.len(),
                list == attribute_nonces_view(self.nonce_by_attributes@),
                nonce_of(list, rewards_view(attributes@)) == nonce_of(
                    list.subrange(0, i as int),
                    rewards_view(attributes@),
                ),
            decreases i,
        {
            proof {
                assert(list.subrange(0, i as int).drop_last() =~= list.subrange(0, i - 1));
            }
            let entry = &self.nonce_by_attributes[i - 1];
            if rewards_eq(&entry.0, attributes) {
                return entry.1;
            }
            i = i - 1;
        }
        0
    }

    /// Mints `amount` box tokens with `attributes`: boxes with the same
    /// attributes share a nonce, and the first ones get a new nonce.
    pub fn create_new_tokens(&mut self, amount: u128, attributes: &Vec<Reward>) -> (r: Result<
        MintedTokens,
        MysteryBoxError,
    >)
        requires
            old(self).wf(),
        ensures
            final(self).wf(),
            match mint_outcome(old(self)@, amount, rewards_view(attributes@)) {
                Ok((t, m)) => r is Ok && r->Ok_0@ == m && final(self)@ == t,
                Err(e) => r == Err::<MintedTokens, MysteryBoxError>(e) && final(self)@ == old(self)@,
            },
    {
        let existing_nonce = self.find_nonce(attributes);
        let token = self.mystery_box_token_id.clone();
        if existing_nonce != 0 {
            return Ok(
                MintedTokens { payment: EsdtTokenPayment::new(token, existing_nonce, amount), created: None },
            );
        }
        if self.last_nonce == u64::MAX {
            return Err(MysteryBoxError::ArithmeticOverflow);
        }
        let new_nonce = self.last_nonce + 1;
        self.last_nonce = new_nonce;
        let entry = (duplicate_rewards(attributes), new_nonce);
        proof {
            assert(attribute_nonces_view(self.nonce_by_attributes@.push(entry)) =~= attribute_nonces_view(
                self.nonce_by_attributes@,
            ).push((rewards_view(attributes@), new_nonce)));
        }
        self.nonce_by_attributes.push(entry);
        let creation = NonceCreation {
            initial_quantity: SFT_AMOUNT,
            name: collection_name_bytes(),
            royalties: ROYALTIES,
            attributes: duplicate_rewards(attributes),
            uris: self.get_mystery_box_uris(),
        };
        Ok(MintedTokens { payment: EsdtTokenPayment::new(token, new_nonce, amount), created: Some(creation) })
    }
}


/// Once a draw falls on a reward that is not held back, the draws after it
/// do not matter.
pub proof fn lemma_first_free_reward_suffix(
    s: MysteryBoxState,
    epoch: u64,
    attributes: Seq<RewardView>,
    draws: Seq<u64>,
    k: int,
)
    requires
        0 <= k <= draws.len(),
        attributes.len() != 0,
        forall|j: int| 0 <= j < k ==> in_cooldown(s, epoch, #[trigger] winning_reward(attributes, draws[j])),
    ensures
        first_free_reward(s, epoch, attributes, draws) == first_free_reward(
            s,
            epoch,
            attributes,
            draws.subrange(k, draws.len() as int),
        ),
    decreases k,
{
    if k > 0 {
        let rest = draws.drop_first();
        assert forall|j: int| 0 <= j < k - 1 implies in_cooldown(s, epoch, #[trigger] winning_reward(attributes, rest[j])) by {
            assert(rest[j] == draws[j + 1]);
            assert(in_cooldown(s, epoch, winning_reward(attributes, draws[j + 1])));
        }
        assert(in_cooldown(s, epoch, winning_reward(attributes, draws[0])));
        lemma_first_free_reward_suffix(s, epoch, attributes, rest, k - 1);
        assert(rest.subrange(k - 1, rest.len() as int) =~= draws.subrange(k, draws.len() as int));
    } else {
        assert(draws.subrange(0, draws.len() as int) =~= draws);
    }
}

impl MysteryBox {
    /// An admin sets up the rewards of new boxes: every reward must be
    /// acceptable and their chances must add up to exactly 100%.
    #[verifier::loop_isolation(false)]
    pub fn setup_mystery_box(&mut self, ctx: &TxContext, winning_rates_list: Vec<Reward>) -> (r: Result<
        (),
        MysteryBoxError,
    >)
        requires
            old(self).wf(),
        ensures
            final(self).wf(),
            match setup_outcome(old(self)@, ctx.caller, rewards_view(winning_rates_list@)) {
                Ok(t) => r is Ok && final(self)@ == t,
                Err(e) => r == Err::<(), MysteryBoxError>(e) && final(self)@ == old(self)@,
            },
    {
        self.require_caller_is_admin(ctx)?;
        let ghost list = rewards_view(winning_rates_list@);
        let ghost token = self@.mystery_box_token_id;
        let mut accumulated_percentage: u64 = 0;
        let mut i: usize = 0;
        proof {
            assert(list.subrange(0, 0) =~= Seq::<RewardView>::empty());
        }
        while i < winning_rates_list.len()
            invariant
                list == rewards_view(winning_rates_list@),
                token == self@.mystery_box_token_id,
                i <= winning_rates_list@.len(),
                setup_scan(list.subrange(0, i as int), token) == Ok::<int, MysteryBoxError>(
                    accumulated_percentage as int,
                ),
            decreases winning_rates_list.len() - i,
        {
            proof {
                assert(list.subrange(0, i + 1).drop_last() =~= list.subrange(0, i as int));
                assert(list.subrange(0, i + 1).last() == winning_rates_list@[i as int]@);
            }
            let reward = &winning_rates_list[i];
            if reward.percentage_chance > u64::MAX - accumulated_percentage {
                proof {
                    lemma_setup_scan_failure_sticks(list, token, i + 1);
                }
                return Err(MysteryBoxError::ArithmeticOverflow);
            }
            accumulated_percentage = accumulated_percentage + reward.percentage_chance;
            if let Err(e) = check_reward_validity(reward, &self.mystery_box_token_id) {
                proof {
                    lemma_setup_scan_failure_sticks(list, token, i + 1);
                }
                return Err(e);
            }
            i = i + 1;
        }
        proof {
            assert(list.subrange(0, list.len() as int) =~= list);
        }
        if accumulated_percentage != MAX_PERCENTAGE {
            return Err(MysteryBoxError::TotalPercentageNot100);
        }
        self.winning_rates = winning_rates_list;
        Ok(())
    }

    /// An admin sets the URIs of the box tokens created from now on.
    pub fn update_mystery_box_uris(&mut self, ctx: &TxContext, uris: Vec<Vec<u8>>) -> (r: Result<
        (),
        MysteryBoxError,
    >)
        requires
            old(self).wf(),
        ensures
            final(self).wf(),
            r is Ok <==> old(self)@.admins.contains(ctx.caller),
            r is Err ==> r == Err::<(), MysteryBoxError>(MysteryBoxError::NotAdmin) && final(self)@
                == old(self)@,
            r is Ok ==> final(self)@ == (MysteryBoxState {
                mystery_box_uris: uris_view(uris@),
                ..old(self)@
            }),
    {
        self.require_caller_is_admin(ctx)?;
        self.mystery_box_uris = uris;
        Ok(())
    }

    /// An admin mints `amount` boxes holding the rewards set up, for itself;
    /// they are sent to it unless `amount` is 0.
    pub fn create_mystery_box(&mut self, ctx: &TxContext, amount: u128) -> (r: Result<
        MintedTokens,
        MysteryBoxError,
    >)
        requires
            old(self).wf(),
        ensures
            final(self).wf(),
            !old(self)@.admins.contains(ctx.caller) ==> r == Err::<MintedTokens, MysteryBoxError>(
                MysteryBoxError::NotAdmin,
            ) && final(self)@ == old(self)@,
            old(self)@.admins.contains(ctx.caller) && old(self)@.winning_rates.len() == 0 ==> r
                == Err::<MintedTokens, MysteryBoxError>(MysteryBoxError::NotSetUp) && final(self)@
                == old(self)@,
            old(self)@.admins.contains(ctx.caller) && old(self)@.winning_rates.len() != 0 ==> match mint_outcome(
                old(self)@,
                amount,
                old(self)@.winning_rates,
            ) {
                Ok((t, m)) => r is Ok && r->Ok_0@ == m && final(self)@ == t,
                Err(e) => r == Err::<MintedTokens, MysteryBoxError>(e) && final(self)@ == old(self)@,
            },
    {
        self.require_caller_is_admin(ctx)?;
        if self.winning_rates.len() == 0 {
            return Err(MysteryBoxError::NotSetUp);
        }
        let mystery_box_attributes = duplicate_rewards(&self.winning_rates);
        self.create_new_tokens(amount, &mystery_box_attributes)
    }

    /// Holds back the kind of `reward` for its cooldown from `current_epoch`
    /// on, unless it is held back already; returns whether it was.
    pub fn check_global_cooldown(&mut self, current_epoch: u64, reward: &Reward) -> (r: Result<
        bool,
        MysteryBoxError,
    >)
        requires
            old(self).wf(),
        ensures
            final(self).wf(),
            in_cooldown(old(self)@, current_epoch, reward@) ==> r == Ok::<bool, MysteryBoxError>(true)
                && final(self)@ == old(self)@,
            !in_cooldown(old(self)@, current_epoch, reward@) && reward.epochs_cooldown == 0 ==> r
                == Ok::<bool, MysteryBoxError>(false) && final(self)@ == old(self)@,
            !in_cooldown(old(self)@, current_epoch, reward@) && reward.epochs_cooldown != 0
                && current_epoch + reward.epochs_cooldown > u64::MAX ==> r == Err::<
                bool,
                MysteryBoxError,
            >(MysteryBoxError::ArithmeticOverflow) && final(self)@ == old(self)@,
            !in_cooldown(old(self)@, current_epoch, reward@) && reward.epochs_cooldown != 0
                && current_epoch + reward.epochs_cooldown <= u64::MAX ==> r == Ok::<
                bool,
                MysteryBoxError,
            >(false) && final(self)@ == (MysteryBoxState {
                global_cooldown_epoch: old(self)@.global_cooldown_epoch.update(
                    type_index(reward.reward_type),
                    (current_epoch + reward.epochs_cooldown) as u64,
                ),
                ..old(self)@
            }),
    {
        let idx = reward_type_index(reward.reward_type);
        let global_cooldown_epoch = self.global_cooldown_epoch[idx];
        if reward.epochs_cooldown == 0 {
            Ok(false)
        } else if global_cooldown_epoch <= current_epoch {
            if reward.epochs_cooldown > u64::MAX - current_epoch {
                return Err(MysteryBoxError::ArithmeticOverflow);
            }
            self.global_cooldown_epoch.set(idx, current_epoch + reward.epochs_cooldown);
            Ok(false)
        } else {
            Ok(true)
        }
    }

    /// Mints one box holding the rewards set up, for `address`.
    pub fn create_and_send_mystery_box(&mut self, address: Address) -> (r: Result<
        MintedTokens,
        MysteryBoxError,
    >)
        requires
            old(self).wf(),
        ensures
            final(self).wf(),
            match mint_outcome(old(self)@, SFT_AMOUNT as u128, old(self)@.winning_rates) {
                Ok((t, m)) => r is Ok && r->Ok_0@ == m && final(self)@ == t,
                Err(e) => r == Err::<MintedTokens, MysteryBoxError>(e) && final(self)@ == old(self)@,
            },
    {
        let new_attributes = duplicate_rewards(&self.winning_rates);
        self.create_new_tokens(SFT_AMOUNT as u128, &new_attributes)
    }

    /// Opens the box paid on the rewards `attributes`: `payments` are the
    /// tokens the call carries and `draws` the random numbers drawn for it,
    /// from 1 to 100%, one after the other. Returns the reward won, the new
    /// box for the opener when it is a box, and the box paid, to be burnt.
    #[verifier::loop_isolation(false)]
    fn open_with_attributes(
        &mut self,
        ctx: &TxContext,
        payments: &Vec<EsdtTokenPayment>,
        attributes: &Vec<Reward>,
        draws: &Vec<u64>,
    ) -> (r: Result<OpenedBox, MysteryBoxError>)
        requires
            old(self).wf(),
        ensures
            final(self).wf(),
            match open_outcome(
                old(self)@,
                *ctx,
                payments_view(payments@),
                rewards_view(attributes@),
                draws@,
            ) {
                Ok((t, reward, new_box)) => r is Ok && final(self)@ == t && r->Ok_0.reward@ == reward
                    && r->Ok_0.burned@ == payments_view(payments@)[0] && match new_box {
                    Some(m) => r->Ok_0.new_box is Some && r->Ok_0.new_box->Some_0@ == m,
                    None => r->Ok_0.new_box is None,
                },
                Err(e) => r is Err && r->Err_0 == e && final(self)@ == old(self)@,
            },
    {
        let ghost s = self@;
        let ghost attrs = rewards_view(attributes@);
        if ctx.caller_is_contract {
            return Err(MysteryBoxError::OnlyUserAccounts);
        }
        if payments.len() != 1 {
            return Err(MysteryBoxError::IncorrectNumberOfEsdtTransfers);
        }
        let payment = &payments[0];
        if !bytes_eq(&payment.token_identifier, &self.mystery_box_token_id) {
            return Err(MysteryBoxError::BadPaymentToken);
        }
        if payment.amount != SFT_AMOUNT as u128 {
            return Err(MysteryBoxError::BadPaymentAmount);
        }
        let current_epoch = ctx.block_epoch;
        assert(payments_view(payments@)[0] == payment@);
        assert(!(payments_view(payments@)[0].token_identifier != s.mystery_box_token_id));
        let mut won = Reward::default();
        if attributes.len() != 0 {
            let mut k: usize = 0;
            let mut found = false;
            while !found
                invariant
                    self@ == s,
                    k <= draws@.len(),
                    !found ==> forall|j: int| 0 <= j < k ==> in_cooldown(s, current_epoch, #[trigger] winning_reward(attrs, draws@[j])),
                    found ==> first_free_reward(s, current_epoch, attrs, draws@) == Some(won@),
                    found ==> !in_cooldown(s, current_epoch, won@),
                decreases draws@.len() - k + (if found { 0int } else { 1int }),
            {
                if k == draws.len() {
                    proof {
                        lemma_first_free_reward_suffix(s, current_epoch, attrs, draws@, k as int);
                    }
                    return Err(MysteryBoxError::DrawsExhausted);
                }
                let candidate = get_winning_reward(attributes, draws[k]);
                let idx = reward_type_index(candidate.reward_type);
                if candidate.epochs_cooldown == 0 || self.global_cooldown_epoch[idx] <= current_epoch {
                    proof {
                        lemma_first_free_reward_suffix(s, current_epoch, attrs, draws@, k as int);
                        assert(draws@.subrange(k as int, draws@.len() as int)[0] == draws@[k as int]);
                    }
                    won = candidate;
                    found = true;
                } else {
                    k = k + 1;
                }
            }
        }
        assert(first_free_reward(s, current_epoch, attrs, draws@) == Some(won@));
        assert(!in_cooldown(s, current_epoch, won@));
        if won.reward_type == RewardType::MysteryBox && self.last_nonce == u64::MAX
            && self.find_nonce(&self.winning_rates) == 0 {
            return Err(MysteryBoxError::ArithmeticOverflow);
        }
        let _ = self.check_global_cooldown(current_epoch, &won)?;
        let ghost t = self@;
        let mut new_box: Option<MintedTokens> = None;
        if won.reward_type == RewardType::MysteryBox {
            let minted = self.create_and_send_mystery_box(ctx.caller);
            match minted {
                Ok(m) => {
                    new_box = Some(m);
                },
                Err(e) => {
                    return Err(e);
                },
            }
        }
        Ok(OpenedBox { reward: won, new_box, burned: payment.duplicate() })
    }
}


impl MysteryBox {
    /// The attributes the box tokens of nonce `nonce` were minted with, if any.
    fn find_attributes(&self, nonce: u64) -> (r: Option<Vec<Reward>>)
        ensures
            match attributes_of(self@.nonce_by_attributes, nonce) {
                Some(a) => r is Some && rewards_view(r->Some_0@) == a,
                None => r is None,
            },
    {
        let ghost list = self@.nonce_by_attributes;
        let mut i: usize = self.nonce_by_attributes.len();
        proof {
            assert(list.subrange(0, i as int) =~= list);
        }
        while i > 0
            invariant
                i <= list.len(),
                list == attribute_nonces_view(self.nonce_by_attributes@),
                attributes_of(list, nonce) == attributes_of(list.subrange(0, i as int), nonce),
            decreases i,
        {
            proof {
                assert(list.subrange(0, i as int).drop_last() =~= list.subrange(0, i - 1));
            }
            let entry = &self.nonce_by_attributes[i - 1];
            if entry.1 == nonce {
                return Some(duplicate_rewards(&entry.0));
            }
            i = i - 1;
        }
        None
    }

    /// A user opens a box it paid, one box token: the box is opened on the
    /// rewards its nonce was minted with; `draws` are the random numbers
    /// drawn for it, from 1 to 100%, one after the other. Returns the reward
    /// won, the new box for the opener when the reward is a box, and the box
    /// paid, which is burnt.
    pub fn open_mystery_box(
        &mut self,
        ctx: &TxContext,
        payments: &Vec<EsdtTokenPayment>,
        draws: &Vec<u64>,
    ) -> (r: Result<OpenedBox, MysteryBoxError>)
        requires
            old(self).wf(),
        ensures
            final(self).wf(),
            match open_box_outcome(old(self)@, *ctx, payments_view(payments@), draws@) {
                Ok((t, reward, new_box)) => r is Ok && final(self)@ == t && r->Ok_0.reward@ == reward
                    && r->Ok_0.burned@ == payments_view(payments@)[0] && match new_box {
                    Some(m) => r->Ok_0.new_box is Some && r->Ok_0.new_box->Some_0@ == m,
                    None => r->Ok_0.new_box is None,
                },
                Err(e) => r is Err && r->Err_0 == e && final(self)@ == old(self)@,
            },
    {
        let mut attributes: Vec<Reward> = Vec::new();
        if payments.len() == 1 {
            let payment = &payments[0];
            assert(payments_view(payments@)[0] == payment@);
            match self.find_attributes(payment.token_nonce) {
                Some(a) => {
                    attributes = a;
                },
                None => {
                    if !ctx.caller_is_contract && bytes_eq(&payment.token_identifier, &self.mystery_box_token_id)
                        && payment.amount == SFT_AMOUNT as u128 {
                        return Err(MysteryBoxError::UnknownBoxNonce);
                    }
                },
            }
        }
        proof {
            if box_attributes(self@, payments_view(payments@)) is None {
                assert(rewards_view(attributes@) =~= Seq::<RewardView>::empty());
            }
        }
        self.open_with_attributes(ctx, payments, &attributes, draws)
    }
}

} // verus!
