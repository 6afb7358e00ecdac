//! The storage of the second mystery box and its endpoints.
use vstd::prelude::*;
use crate::common::{
    bytes_eq, copy_vec, is_valid_esdt_identifier, valid_esdt_identifier, Address, EsdtTokenPayment,
    PaymentView, TxContext,
};
use crate::mystery_box::config::{
    collection_name, collection_name_bytes, MysteryBoxError, RewardType, MAX_PERCENTAGE, ROYALTIES,
    SFT_AMOUNT,
};
use crate::mystery_box::contract::{payments_view, uris_view};
use crate::unordered_set::{insert_value, remove_value, UnorderedSet};
use super::config::{
    duplicate_rewards, no_reward, rewards_view, setups_view, CooldownType, Reward, RewardCooldown,
    RewardSetup, RewardSetupView, RewardView,
};
use super::rewards::{
    check_reward_validity, cooldown_after, get_winning_reward, next_cooldown, reward_error,
    winning_reward,
};

verus! {

/// The second mystery box's storage as plain values.
pub ghost struct MysteryBoxV2State {
    pub owner: Address,
    pub mystery_box_token_id: Seq<u8>,
    /// The id of the last reward set up; rewards are numbered from 1.
    pub last_reward_id: u64,
    /// The cooldown of each reward set up so far, by id: the reward
    /// numbered `n` sits at position `n - 1`.
    pub cooldowns: Seq<RewardCooldown>,
    /// The rewards new boxes hold; empty until the box is set up.
    pub winning_rates: Seq<RewardView>,
    pub mystery_box_uris: Seq<Seq<u8>>,
    pub admins: Seq<Address>,
    /// The nonce of the box tokens created for each list of attributes.
    pub nonce_by_attributes: Seq<(Seq<RewardView>, u64)>,
    /// The last nonce created of the box token. The contract creates every
    /// nonce of its token, one after the other.
    pub last_nonce: u64,
}

/// Every reward id set up has its cooldown.
pub open spec fn mystery_box_v2_wf(s: MysteryBoxV2State) -> bool {
    &&& s.cooldowns.len() == s.last_reward_id
    &&& attribute_nonces_wf(s.nonce_by_attributes, s.last_nonce)
}

/// Every nonce created for attributes is between 1 and the last nonce
/// created, and no two entries share a nonce.
pub open spec fn attribute_nonces_wf(list: Seq<(Seq<RewardView>, u64)>, last_nonce: u64) -> bool {
    &&& forall|i: int| 0 <= i < list.len() ==> 1 <= #[trigger] list[i].1 <= last_nonce
    &&& forall|i: int, j: int| 0 <= i < j < list.len() ==> #[trigger] list[i].1 != #[trigger] list[j].1
}

/// A nonce found for `attributes` is the nonce of an entry for them.
pub proof fn lemma_nonce_of_entry(list: Seq<(Seq<RewardView>, u64)>, attributes: Seq<RewardView>)
    requires
        nonce_of(list, attributes) != 0,
    ensures
        exists|i: int| 0 <= i < list.len() && #[trigger] list[i] == (attributes, nonce_of(list, attributes)),
    decreases list.len(),
{
    if list.last().0 == attributes {
        assert(list[list.len() - 1] == (attributes, nonce_of(list, attributes)));
    } else {
        let p = list.drop_last();
        lemma_nonce_of_entry(p, attributes);
        let i = choose|i: int| 0 <= i < p.len() && #[trigger] p[i] == (attributes, nonce_of(p, attributes));
        assert(list[i] == p[i]);
    }
}

/// The nonce of the box tokens created for `attributes`, or 0.
/// The attributes the box tokens of nonce `nonce` were minted with, if any.
pub open spec fn attributes_of(list: Seq<(Seq<RewardView>, u64)>, nonce: u64) -> Option<Seq<RewardView>>
    decreases list.len(),
{
    if list.len() == 0 {
        None
    } else if list.last().1 == nonce {
        Some(list.last().0)
    } else {
        attributes_of(list.drop_last(), nonce)
    }
}

/// The attributes of the box paid: those its nonce was minted with. Where
/// the payment is not a single token they do not matter.
pub open spec fn box_attributes(s: MysteryBoxV2State, payments: Seq<PaymentView>) -> Option<Seq<RewardView>> {
    if payments.len() == 1 {
        attributes_of(s.nonce_by_attributes, payments[0].token_nonce)
    } else {
        Some(Seq::empty())
    }
}

/// Whether the caller and the payment pass the checks of `openMysteryBox`.
pub open spec fn box_payment_ok(s: MysteryBoxV2State, ctx: TxContext, payments: Seq<PaymentView>) -> bool {
    &&& !ctx.caller_is_contract
    &&& payments.len() == 1
    &&& payments[0].token_identifier == s.mystery_box_token_id
    &&& payments[0].amount == SFT_AMOUNT
}

/// What `openMysteryBox` does with the box's own attributes: the box paid
/// must have been minted here, and it is opened on the attributes of its
/// nonce.
pub open spec fn open_box_outcome(s: MysteryBoxV2State, ctx: TxContext, payments: Seq<PaymentView>, draws: Seq<u64>) -> Result<
    (MysteryBoxV2State, RewardView, Option<MintedView>),
    MysteryBoxError,
> {
    match box_attributes(s, payments) {
        None => if box_payment_ok(s, ctx, payments) {
            Err(MysteryBoxError::UnknownBoxNonce)
        } else {
            open_outcome(s, ctx, payments, Seq::empty(), draws)
        },
        Some(a) => open_outcome(s, ctx, payments, a, draws),
    }
}

pub open spec fn nonce_of(list: Seq<(Seq<RewardView>, u64)>, attributes: Seq<RewardView>) -> u64
    decreases list.len(),
{
    if list.len() == 0 {
        0
    } else if list.last().0 == attributes {
        list.last().1
    } else {
        nonce_of(list.drop_last(), attributes)
    }
}

/// Box tokens to hand out: `payment` is minted. When the attributes had no
/// nonce yet, `created` holds how the new nonce was made.
#[derive(Clone, Debug)]
pub struct MintedTokens {
    pub payment: EsdtTokenPayment,
    pub created: Option<NonceCreation>,
}

/// How a new nonce of the box token is made: `initial_quantity` tokens are
/// kept in the contract, with the collection name, the royalties, the
/// attributes and the box URIs.
#[derive(Clone, Debug)]
pub struct NonceCreation {
    pub initial_quantity: u64,
    pub name: Vec<u8>,
    pub royalties: u64,
    pub attributes: Vec<Reward>,
    pub uris: Vec<Vec<u8>>,
}

pub ghost struct NonceCreationView {
    pub initial_quantity: u64,
    pub name: Seq<u8>,
    pub royalties: u64,
    pub attributes: Seq<RewardView>,
    pub uris: Seq<Seq<u8>>,
}

impl View for NonceCreation {
    type V = NonceCreationView;

    open spec fn view(&self) -> NonceCreationView {
        NonceCreationView {
            initial_quantity: self.initial_quantity,
            name: self.name@,
            royalties: self.royalties,
            attributes: rewards_view(self.attributes@),
            uris: uris_view(self.uris@),
        }
    }
}

pub ghost struct MintedView {
    pub payment: PaymentView,
    pub created: Option<NonceCreationView>,
}

impl View for MintedTokens {
    type V = MintedView;

    open spec fn view(&self) -> MintedView {
        MintedView {
            payment: self.payment@,
            created: match self.created {
                Some(c) => Some(c@),
                None => None,
            },
        }
    }
}

/// How a nonce made for `attributes` in storage `s` is created.
pub open spec fn nonce_creation(s: MysteryBoxV2State, attributes: Seq<RewardView>) -> NonceCreationView {
    NonceCreationView {
        initial_quantity: SFT_AMOUNT,
        name: collection_name(),
        royalties: ROYALTIES,
        attributes,
        uris: s.mystery_box_uris,
    }
}

/// What minting `amount` boxes with `attributes` does: boxes with the same
/// attributes share a nonce; the first such boxes get a new nonce, the one
/// after the last.
pub open spec fn mint_outcome(s: MysteryBoxV2State, amount: u128, attributes: Seq<RewardView>) -> Result<
    (MysteryBoxV2State, MintedView),
    MysteryBoxError,
> {
    let existing = nonce_of(s.nonce_by_attributes, attributes);
    if existing != 0 {
        Ok(
            (
                s,
                MintedView {
                    payment: PaymentView {
                        token_identifier: s.mystery_box_token_id,
                        token_nonce: existing,
                        amount,
                    },
                    created: None,
                },
            ),
        )
    } else if s.last_nonce == u64::MAX {
        Err(MysteryBoxError::ArithmeticOverflow)
    } else {
        let nonce = (s.last_nonce + 1) as u64;
        Ok(
            (
                MysteryBoxV2State {
                    last_nonce: nonce,
                    nonce_by_attributes: s.nonce_by_attributes.push((attributes, nonce)),
                    ..s
                },
                MintedView {
                    payment: PaymentView {
                        token_identifier: s.mystery_box_token_id,
                        token_nonce: nonce,
                        amount,
                    },
                    created: Some(nonce_creation(s, attributes)),
                },
            ),
        )
    }
}

/// The rewards a setup creates, numbered after `start`.
pub open spec fn new_rewards(list: Seq<RewardSetupView>, start: u64) -> Seq<RewardView> {
    Seq::new(
        list.len(),
        |i: int|
            RewardView {
                reward_id: (start + i + 1) as u64,
                reward_type: list[i].reward_type,
                reward_token_id: list[i].reward_token_id,
                value: list[i].value,
                description: list[i].description,
                percentage_chance: list[i].percentage_chance,
            },
    )
}

/// The cooldowns a setup creates in `epoch`, each with all its wins left.
pub open spec fn new_cooldowns(list: Seq<RewardSetupView>, epoch: u64) -> Seq<RewardCooldown> {
    Seq::new(
        list.len(),
        |i: int|
            RewardCooldown {
                cooldown_type: list[i].cooldown_type,
                wins_per_cooldown: list[i].wins_per_cooldown,
                cooldown_epochs: list[i].cooldown_epochs,
                remaining_epoch_wins: list[i].wins_per_cooldown,
                last_update_epoch: epoch,
            },
    )
}

/// Scanning the rewards of a setup in order, numbered after `start`: the
/// total of their chances, or the first failure, an overflow of the running
/// total or of the reward ids, or a reward that may not be set up.
pub open spec fn setup_scan(
    list: Seq<RewardSetupView>,
    box_token: Seq<u8>,
    start: u64,
    epoch: u64,
) -> Result<int, MysteryBoxError>
    decreases list.len(),
{
    if list.len() == 0 {
        Ok(0)
    } else {
        match setup_scan(list.drop_last(), box_token, start, epoch) {
            Err(e) => Err(e),
            Ok(acc) => {
                let i = list.len() - 1;
                if acc + list.last().percentage_chance > u64::MAX {
                    Err(MysteryBoxError::ArithmeticOverflow)
                } else if start + i + 1 > u64::MAX || start + i + 1 > usize::MAX {
                    Err(MysteryBoxError::ArithmeticOverflow)
                } else {
                    match reward_error(
                        new_rewards(list, start)[i],
                        new_cooldowns(list, epoch)[i],
                        box_token,
                    ) {
                        Some(e) => Err(e),
                        None => Ok(acc + list.last().percentage_chance),
                    }
                }
            },
        }
    }
}

proof fn lemma_new_items_prefix(list: Seq<RewardSetupView>, start: u64, epoch: u64, k: int)
    requires
        0 <= k <= list.len(),
    ensures
        forall|i: int| 0 <= i < k ==> #[trigger] new_rewards(list.subrange(0, k), start)[i] == new_rewards(list, start)[i],
        forall|i: int| 0 <= i < k ==> #[trigger] new_cooldowns(list.subrange(0, k), epoch)[i] == new_cooldowns(list, epoch)[i],
{
}

/// Once the scan fails, the scan of the whole list fails the same way.
pub proof fn lemma_setup_scan_failure_sticks(
    list: Seq<RewardSetupView>,
    box_token: Seq<u8>,
    start: u64,
    epoch: u64,
    k: int,
)
    requires
        0 <= k <= list.len(),
        setup_scan(list.subrange(0, k), box_token, start, epoch) is Err,
    ensures
        setup_scan(list, box_token, start, epoch) == setup_scan(list.subrange(0, k), box_token, start, epoch),
    decreases list.len() - k,
{
    if k < list.len() {
        assert(list.subrange(0, k + 1).drop_last() =~= list.subrange(0, k));
        lemma_setup_scan_failure_sticks(list, box_token, start, epoch, k + 1);
    } else {
        assert(list.subrange(0, k) =~= list);
    }
}

/// What `setupMysteryBox` does: the caller must be an admin, every reward
/// and its cooldown must be acceptable and their chances must add up to
/// exactly 100%. The rewards are numbered after the last one, each gets its
/// cooldown, with all its wins left from the current epoch on, and they
/// become the rewards of new boxes.
pub open spec fn setup_outcome(
    s: MysteryBoxV2State,
    caller: Address,
    epoch: u64,
    list: Seq<RewardSetupView>,
) -> Result<MysteryBoxV2State, MysteryBoxError> {
    if !s.admins.contains(caller) {
        Err(MysteryBoxError::NotAdmin)
    } else {
        match setup_scan(list, s.mystery_box_token_id, s.last_reward_id, epoch) {
            Err(e) => Err(e),
            Ok(total) => if total != MAX_PERCENTAGE {
                Err(MysteryBoxError::TotalPercentageNot100)
            } else {
                Ok(
                    MysteryBoxV2State {
                        last_reward_id: (s.last_reward_id + list.len()) as u64,
                        cooldowns: s.cooldowns + new_cooldowns(list, epoch),
                        winning_rates: new_rewards(list, s.last_reward_id),
                        ..s
                    },
                )
            },
        }
    }
}

/// A win of reward `r` counted in the cooldown table in `epoch`: the table
/// after it and whether the reward is held back. A reward with no cooldown
/// set up is never held back.
pub open spec fn table_check(table: Seq<RewardCooldown>, epoch: u64, r: RewardView) -> Result<
    (Seq<RewardCooldown>, bool),
    MysteryBoxError,
> {
    if !(1 <= r.reward_id <= table.len()) {
        Ok((table, false))
    } else {
        match cooldown_after(table[r.reward_id - 1], epoch) {
            Err(e) => Err(e),
            Ok((c, held)) => Ok((table.update(r.reward_id - 1, c), held)),
        }
    }
}

/// Drawing until a reward is not held back: the draws fall one after the
/// other, each counted against its reward's cooldown, and the first reward
/// not held back is won. An empty list of attributes gives the empty reward
/// without a draw.
pub open spec fn draw_loop(
    table: Seq<RewardCooldown>,
    epoch: u64,
    attributes: Seq<RewardView>,
    draws: Seq<u64>,
) -> Result<(Seq<RewardCooldown>, RewardView), MysteryBoxError>
    decreases draws.len(),
{
    if attributes.len() == 0 {
        Ok((table, no_reward()))
    } else if draws.len() == 0 {
        Err(MysteryBoxError::DrawsExhausted)
    } else {
        let r = winning_reward(attributes, draws[0]);
        match table_check(table, epoch, r) {
            Err(e) => Err(e),
            Ok((t, held)) => if held {
                draw_loop(t, epoch, attributes, draws.drop_first())
            } else {
                Ok((t, r))
            },
        }
    }
}

/// What `openMysteryBox` does. The caller must be a user account paying
/// exactly one box token; `attributes` are the rewards that box holds, and
/// `draws` the random numbers from 1 to 100% drawn one after the other, each
/// counted against its reward's cooldown, until one falls on a reward not
/// held back. A box won is minted for the opener. The box paid is burnt.
pub open spec fn open_outcome(
    s: MysteryBoxV2State,
    ctx: TxContext,
    payments: Seq<PaymentView>,
    attributes: Seq<RewardView>,
    draws: Seq<u64>,
) -> Result<(MysteryBoxV2State, RewardView, Option<MintedView>), MysteryBoxError> {
    if ctx.caller_is_contract {
        Err(MysteryBoxError::OnlyUserAccounts)
    } else if payments.len() != 1 {
        Err(MysteryBoxError::IncorrectNumberOfEsdtTransfers)
    } else if payments[0].token_identifier != s.mystery_box_token_id {
        Err(MysteryBoxError::BadPaymentToken)
    } else if payments[0].amount != SFT_AMOUNT {
        Err(MysteryBoxError::BadPaymentAmount)
    } else {
        match draw_loop(s.cooldowns, ctx.block_epoch, attributes, draws) {
            Err(e) => Err(e),
            Ok((table, r)) => {
                let t = MysteryBoxV2State { cooldowns: table, ..s };
                if r.reward_type == RewardType::MysteryBox {
                    match mint_outcome(t, SFT_AMOUNT as u128, t.winning_rates) {
                        Err(e) => Err(e),
                        Ok((u, m)) => Ok((u, r, Some(m))),
                    }
                } else {
                    Ok((t, r, None))
                }
            },
        }
    }
}

/// Whether two rewards are equal.
pub fn reward_eq(a: &Reward, b: &Reward) -> (r: bool)
    ensures
        r == (a@ == b@),
{
    a.reward_id == b.reward_id && a.reward_type == b.reward_type && bytes_eq(
        &a.reward_token_id,
        &b.reward_token_id,
    ) && a.value == b.value && bytes_eq(&a.description, &b.description) && a.percentage_chance
        == b.percentage_chance
}

/// Whether two lists of rewards are equal.
pub fn rewards_eq(a: &Vec<Reward>, b: &Vec<Reward>) -> (r: bool)
    ensures
        r == (rewards_view(a@) == rewards_view(b@)),
{
    if a.len() != b.len() {
        proof {
            assert(rewards_view(a@).len() != rewards_view(b@).len());
        }
        return false;
    }
    let mut i: usize = 0;
    while i < a.len()
        invariant
            a.len() == b.len(),
            i <= a.len(),
            forall|j: int| 0 <= j < i ==> a@[j]@ == b@[j]@,
        decreases a.len() - i,
    {
        if !reward_eq(&a[i], &b[i]) {
            proof {
                assert(rewards_view(a@)[i as int] != rewards_view(b@)[i as int]);
            }
            return false;
        }
        i = i + 1;
    }
    assert(rewards_view(a@) =~= rewards_view(b@));
    true
}

/// The second mystery box contract: its storage.
pub struct MysteryBox {
    owner: Address,
    mystery_box_token_id: Vec<u8>,
    last_reward_id: u64,
    reward_cooldown: Vec<RewardCooldown>,
    winning_rates: Vec<Reward>,
    mystery_box_uris: Vec<Vec<u8>>,
    admins: UnorderedSet,
    nonce_by_attributes: Vec<(Vec<Reward>, u64)>,
    last_nonce: u64,
}

pub open spec fn attribute_nonces_view(v: Seq<(Vec<Reward>, u64)>) -> Seq<(Seq<RewardView>, u64)> {
    v.map_values(|e: (Vec<Reward>, u64)| (rewards_view(e.0@), e.1))
}

impl View for MysteryBox {
    type V = MysteryBoxV2State;

    closed spec fn view(&self) -> MysteryBoxV2State {
        MysteryBoxV2State {
            owner: self.owner,
            mystery_box_token_id: self.mystery_box_token_id@,
            last_reward_id: self.last_reward_id,
            cooldowns: self.reward_cooldown@,
            winning_rates: rewards_view(self.winning_rates@),
            mystery_box_uris: uris_view(self.mystery_box_uris@),
            admins: self.admins@,
            nonce_by_attributes: attribute_nonces_view(self.nonce_by_attributes@),
            last_nonce: self.last_nonce,
        }
    }
}

impl MysteryBox {
    pub open spec fn wf(&self) -> bool {
        mystery_box_v2_wf(self@)
    }

    /// Deploys the contract for box token `mystery_box_token_id`, which must
    /// be a valid token identifier; the caller becomes owner and admin.
    pub fn init(ctx: &TxContext, mystery_box_token_id: Vec<u8>) -> (r: Result<MysteryBox, MysteryBoxError>)
        ensures
            !valid_esdt_identifier(mystery_box_token_id@) ==> r == Err::<MysteryBox, MysteryBoxError>(
                MysteryBoxError::InvalidTokenId,
            ),
            valid_esdt_identifier(mystery_box_token_id@) ==> r is Ok && r->Ok_0.wf() && r->Ok_0@ == (
            MysteryBoxV2State {
                owner: ctx.caller,
                mystery_box_token_id: mystery_box_token_id@,
                last_reward_id: 0,
                cooldowns: Seq::empty(),
                winning_rates: Seq::empty(),
                mystery_box_uris: Seq::empty(),
                admins: seq![ctx.caller],
                nonce_by_attributes: Seq::empty(),
                last_nonce: 0,
            }),
    {
        if !is_valid_esdt_identifier(&mystery_box_token_id) {
            return Err(MysteryBoxError::InvalidTokenId);
        }
        let mut admins = UnorderedSet::new();
        admins.insert(ctx.caller);
        let c = MysteryBox {
            owner: ctx.caller,
            mystery_box_token_id,
            last_reward_id: 0,
            reward_cooldown: Vec::new(),
            winning_rates: Vec::new(),
            mystery_box_uris: Vec::new(),
            admins,
            nonce_by_attributes: Vec::new(),
            last_nonce: 0,
        };
        proof {
            let v = c@;
            assert(v.cooldowns =~= Seq::<RewardCooldown>::empty());
            assert(v.winning_rates =~= Seq::<RewardView>::empty());
            assert(v.mystery_box_uris =~= Seq::<Seq<u8>>::empty());
            assert(v.nonce_by_attributes =~= Seq::<(Seq<RewardView>, u64)>::empty());
            assert(v.admins =~= seq![ctx.caller]);
        }
        Ok(c)
    }

    /// Whether `address` is an admin.
    pub fn is_admin(&self, address: Address) -> (b: bool)
        ensures
            b == self@.admins.contains(address),
    {
        self.admins.contains(address)
    }

    /// The admins, in the order kept in storage.
    pub fn get_admins(&self) -> (v: Vec<Address>)
        ensures
            v@ == self@.admins,
    {
        self.admins.to_vec()
    }

    /// The owner makes `address` an admin.
    pub fn add_admin(&mut self, ctx: &TxContext, address: Address) -> (r: Result<(), MysteryBoxError>)
        requires
            old(self).wf(),
        ensures
            final(self).wf(),
            r is Ok <==> ctx.caller == old(self)@.owner,
            r is Err ==> r == Err::<(), MysteryBoxError>(MysteryBoxError::NotOwner) && final(self)@
                == old(self)@,
            r is Ok ==> final(self)@ == (MysteryBoxV2State {
                admins: insert_value(old(self)@.admins, address),
                ..old(self)@
            }),
    {
        if ctx.caller != self.owner {
            return Err(MysteryBoxError::NotOwner);
        }
        self.admins.insert(address);
        Ok(())
    }

    /// The owner takes the admin role from `address`.
    pub fn remove_admin(&mut self, ctx: &TxContext, address: Address) -> (r: Result<(), MysteryBoxError>)
        requires
            old(self).wf(),
        ensures
            final(self).wf(),
            r is Ok <==> ctx.caller == old(self)@.owner,
            r is Err ==> r == Err::<(), MysteryBoxError>(MysteryBoxError::NotOwner) && final(self)@
                == old(self)@,
            r is Ok ==> final(self)@ == (MysteryBoxV2State {
                admins: remove_value(old(self)@.admins, address),
                ..old(self)@
            }),
    {
        if ctx.caller != self.owner {
            return Err(MysteryBoxError::NotOwner);
        }
        self.admins.swap_remove(address);
        Ok(())
    }

    /// Fails with "Endpoint can only be called by admins" unless the caller is an admin.
    pub fn require_caller_is_admin(&self, ctx: &TxContext) -> (r: Result<(), MysteryBoxError>)
        ensures
            r is Ok <==> self@.admins.contains(ctx.caller),
            r is Err ==> r == Err::<(), MysteryBoxError>(MysteryBoxError::NotAdmin),
    {
        if !self.is_admin(ctx.caller) {
            return Err(MysteryBoxError::NotAdmin);
        }
        Ok(())
    }

    pub fn get_mystery_box_token_identifier(&self) -> (t: Vec<u8>)
        ensures
            t@ == self@.mystery_box_token_id,
    {
        self.mystery_box_token_id.clone()
    }

    /// The first epoch in which a reward of kind `reward_type` can be won again.
    /// The id of the last reward set up.
    pub fn get_last_reward_id(&self) -> (id: u64)
        ensures
            id == self@.last_reward_id,
    {
        self.last_reward_id
    }

    /// The cooldown of reward `reward_id`, if it was set up.
    pub fn get_reward_cooldown(&self, reward_id: u64) -> (c: Option<RewardCooldown>)
        requires
            self.wf(),
        ensures
            c == (if 1 <= reward_id <= self@.cooldowns.len() {
                Some(self@.cooldowns[reward_id - 1])
            } else {
                None::<RewardCooldown>
            }),
    {
        let n = self.reward_cooldown.len();
        if 1 <= reward_id && reward_id <= n as u64 {
            Some(self.reward_cooldown[(reward_id - 1) as usize])
        } else {
            None
        }
    }

    /// The rewards new boxes hold.
    pub fn get_winning_rates(&self) -> (v: Vec<Reward>)
        ensures
            rewards_view(v@) == self@.winning_rates,
    {
        duplicate_rewards(&self.winning_rates)
    }

    pub fn get_mystery_box_uris(&self) -> (v: Vec<Vec<u8>>)
        ensures
            uris_view(v@) == self@.mystery_box_uris,
    {
        let mut out: Vec<Vec<u8>> = Vec::new();
        let mut i: usize = 0;
        while i < self.mystery_box_uris.len()
            invariant
                i <= self.mystery_box_uris@.len(),
                out@.len() == i,
                forall|j: int| 0 <= j < i ==> out@[j]@ == self.mystery_box_uris@[j]@,
            decreases self.mystery_box_uris.len() - i,
        {
            out.push(self.mystery_box_uris[i].clone());
            i = i + 1;
        }
        assert(uris_view(out@) =~= uris_view(self.mystery_box_uris@));
        out
    }

    /// The nonce of the box tokens created for `attributes`, or 0.
    fn find_nonce(&self, attributes: &Vec<Reward>) -> (n: u64)
        ensures
            n == nonce_of(self@.nonce_by_attributes, rewards_view(attributes@)),
    {
        let ghost list = self@.nonce_by_attributes;
        let mut i: usize = self.nonce_by_attributes.len();
        proof {
            assert(list.subrange(0, i as int) =~= list);
        }
        while i > 0
            invariant
                i <= list.len(),
                list == attribute_nonces_view(self.nonce_by_attributes@),
                nonce_of(list, rewards_view(attributes@)) == nonce_of(
                    list.subrange(0, i as int),
                    rewards_view(attributes@),
                ),
            decreases i,
        {
            proof {
                assert(list.subrange(0, i as int).drop_last() =~= list.subrange(0, i - 1));
            }
            let entry = &self.nonce_by_attributes[i - 1];
            if rewards_eq(&entry.0, attributes) {
                return entry.1;
            }
            i = i - 1;
        }
        0
    }

    /// Mints `amount` box tokens with `attributes`: boxes with the same
    /// attributes share a nonce, and the first ones get a new nonce.
    pub fn create_new_tokens(&mut self, amount: u128, attributes: &Vec<Reward>) -> (r: Result<
        MintedTokens,
        MysteryBoxError,
    >)
        requires
            old(self).wf(),
        ensures
            final(self).wf(),
            match mint_outcome(old(self)@, amount, rewards_view(attributes@)) {
                Ok((t, m)) => r is Ok && r->Ok_0@ == m && final(self)@ == t,
                Err(e) => r == Err::<MintedTokens, MysteryBoxError>(e) && final(self)@ == old(self)@,
            },
    {
        let existing_nonce = self.find_nonce(attributes);
        let token = self.mystery_box_token_id.clone();
        if existing_nonce != 0 {
            return Ok(
                MintedTokens { payment: EsdtTokenPayment::new(token, existing_nonce, amount), created: None },
            );
        }
        if self.last_nonce == u64::MAX {
            return Err(MysteryBoxError::ArithmeticOverflow);
        }
        let new_nonce = self.last_nonce + 1;
        self.last_nonce = new_nonce;
        let entry = (duplicate_rewards(attributes), new_nonce);
        proof {
            assert(attribute_nonces_view(self.nonce_by_attributes@.push(entry)) =~= attribute_nonces_view(
                self.nonce_by_attributes@,
            ).push((rewards_view(attributes@), new_nonce)));
        }
        self.nonce_by_attributes.push(entry);
        let creation = NonceCreation {
            initial_quantity: SFT_AMOUNT,
            name: collection_name_bytes(),
            royalties: ROYALTIES,
            attributes: duplicate_rewards(attributes),
            uris: self.get_mystery_box_uris(),
        };
        Ok(MintedTokens { payment: EsdtTokenPayment::new(token, new_nonce, amount), created: Some(creation) })
    }
}



/// Counts a win of `reward` in `current_epoch` in the cooldown table
/// `table`; returns whether the reward is held back.
fn table_check_in(table: &mut Vec<RewardCooldown>, current_epoch: u64, reward: &Reward) -> (r: Result<
    bool,
    MysteryBoxError,
>)
    ensures
        match table_check(old(table)@, current_epoch, reward@) {
            Ok((t, held)) => r == Ok::<bool, MysteryBoxError>(held) && final(table)@ == t,
            Err(e) => r == Err::<bool, MysteryBoxError>(e) && final(table)@ == old(table)@,
        },
{
    let n = table.len();
    if !(1 <= reward.reward_id && reward.reward_id <= n as u64) {
        return Ok(false);
    }
    let idx = (reward.reward_id - 1) as usize;
    let (cooldown, held) = next_cooldown(&table[idx], current_epoch)?;
    table.set(idx, cooldown);
    Ok(held)
}

/// Once a draw fails, the draws after it do not matter; while draws are held
/// back, the loop goes on with the table they leave.
proof fn lemma_draw_loop_unfold(
    table: Seq<RewardCooldown>,
    epoch: u64,
    attributes: Seq<RewardView>,
    draws: Seq<u64>,
    k: int,
)
    requires
        0 <= k < draws.len(),
        attributes.len() != 0,
    ensures
        draw_loop(table, epoch, attributes, draws.subrange(k, draws.len() as int)) == (match table_check(
            table,
            epoch,
            winning_reward(attributes, draws[k]),
        ) {
            Err(e) => Err(e),
            Ok((t, held)) => if held {
                draw_loop(t, epoch, attributes, draws.subrange(k + 1, draws.len() as int))
            } else {
                Ok((t, winning_reward(attributes, draws[k])))
            },
        }),
{
    let d = draws.subrange(k, draws.len() as int);
    assert(d[0] == draws[k]);
    assert(d.drop_first() =~= draws.subrange(k + 1, draws.len() as int));
}

impl MysteryBox {
    /// An admin sets up the rewards of new boxes with their cooldowns: every
    /// reward and cooldown must be acceptable and the chances must add up to
    /// exactly 100%. The rewards are numbered after the last one.
    #[verifier::loop_isolation(false)]
    pub fn setup_mystery_box(&mut self, ctx: &TxContext, winning_rates_list: &Vec<RewardSetup>) -> (r:
        Result<(), MysteryBoxError>)
        requires
            old(self).wf(),
        ensures
            final(self).wf(),
            match setup_outcome(old(self)@, ctx.caller, ctx.block_epoch, setups_view(winning_rates_list@)) {
                Ok(t) => r is Ok && final(self)@ == t,
                Err(e) => r == Err::<(), MysteryBoxError>(e) && final(self)@ == old(self)@,
            },
    {
        self.require_caller_is_admin(ctx)?;
        let ghost list = setups_view(winning_rates_list@);
        let ghost token = self@.mystery_box_token_id;
        let ghost start = self@.last_reward_id;
        let current_epoch = ctx.block_epoch;
        let mut reward_id = self.last_reward_id;
        let mut accumulated_percentage: u64 = 0;
        let mut winning_rates: Vec<Reward> = Vec::new();
        let mut cooldowns: Vec<RewardCooldown> = Vec::new();
        let mut i: usize = 0;
        proof {
            assert(list.subrange(0, 0) =~= Seq::<RewardSetupView>::empty());
        }
        while i < winning_rates_list.len()
            invariant
                i <= list.len(),
                reward_id == start + i,
                setup_scan(list.subrange(0, i as int), token, start, current_epoch) == Ok::<
                    int,
                    MysteryBoxError,
                >(accumulated_percentage as int),
                rewards_view(winning_rates@) == new_rewards(list, start).subrange(0, i as int),
                cooldowns@ == new_cooldowns(list, current_epoch).subrange(0, i as int),
            decreases winning_rates_list.len() - i,
        {
            proof {
                assert(list.subrange(0, i + 1).drop_last() =~= list.subrange(0, i as int));
                assert(list.subrange(0, i + 1).last() == list[i as int]);
                lemma_new_items_prefix(list, start, current_epoch, i + 1);
            }
            let item = &winning_rates_list[i];
            if item.percentage_chance > u64::MAX - accumulated_percentage {
                proof {
                    lemma_setup_scan_failure_sticks(list, token, start, current_epoch, i + 1);
                }
                return Err(MysteryBoxError::ArithmeticOverflow);
            }
            accumulated_percentage = accumulated_percentage + item.percentage_chance;
            if reward_id == u64::MAX || self.reward_cooldown.len() + i >= usize::MAX {
                proof {
                    lemma_setup_scan_failure_sticks(list, token, start, current_epoch, i + 1);
                }
                return Err(MysteryBoxError::ArithmeticOverflow);
            }
            reward_id = reward_id + 1;
            let reward = Reward::new(
                reward_id,
                item.reward_type,
                item.reward_token_id.clone(),
                item.value,
                item.description.clone(),
                item.percentage_chance,
            );
            let reward_cooldown = RewardCooldown::new(
                item.cooldown_type,
                item.wins_per_cooldown,
                item.cooldown_epochs,
                item.wins_per_cooldown,
                current_epoch,
            );
            proof {
                assert(reward@ == new_rewards(list, start)[i as int]);
                assert(reward_cooldown == new_cooldowns(list, current_epoch)[i as int]);
            }
            if let Err(e) = check_reward_validity(&reward, &reward_cooldown, &self.mystery_box_token_id) {
                proof {
                    lemma_setup_scan_failure_sticks(list, token, start, current_epoch, i + 1);
                }
                return Err(e);
            }
            proof {
                assert(rewards_view(winning_rates@.push(reward)) =~= rewards_view(winning_rates@).push(reward@));
                assert(new_rewards(list, start).subrange(0, i + 1) =~= new_rewards(list, start).subrange(0, i as int).push(reward@));
                assert(new_cooldowns(list, current_epoch).subrange(0, i + 1) =~= new_cooldowns(list, current_epoch).subrange(0, i as int).push(reward_cooldown));
            }
            winning_rates.push(reward);
            cooldowns.push(reward_cooldown);
            i = i + 1;
        }
        proof {
            assert(list.subrange(0, list.len() as int) =~= list);
            assert(new_rewards(list, start).subrange(0, list.len() as int) =~= new_rewards(list, start));
            assert(new_cooldowns(list, current_epoch).subrange(0, list.len() as int) =~= new_cooldowns(list, current_epoch));
        }
        if accumulated_percentage != MAX_PERCENTAGE {
            return Err(MysteryBoxError::TotalPercentageNot100);
        }
        self.last_reward_id = reward_id;
        self.reward_cooldown.append(&mut cooldowns);
        self.winning_rates = winning_rates;
        Ok(())
    }

    /// An admin sets the URIs of the box tokens created from now on.
    pub fn update_mystery_box_uris(&mut self, ctx: &TxContext, uris: Vec<Vec<u8>>) -> (r: Result<
        (),
        MysteryBoxError,
    >)
        requires
            old(self).wf(),
        ensures
            final(self).wf(),
            r is Ok <==> old(self)@.admins.contains(ctx.caller),
            r is Err ==> r == Err::<(), MysteryBoxError>(MysteryBoxError::NotAdmin) && final(self)@
                == old(self)@,
            r is Ok ==> final(self)@ == (MysteryBoxV2State {
                mystery_box_uris: uris_view(uris@),
                ..old(self)@
            }),
    {
        self.require_caller_is_admin(ctx)?;
        self.mystery_box_uris = uris;
        Ok(())
    }

    /// An admin mints `amount` boxes holding the rewards set up, for itself;
    /// they are sent to it unless `amount` is 0.
    pub fn create_mystery_box(&mut self, ctx: &TxContext, amount: u128) -> (r: Result<
        MintedTokens,
        MysteryBoxError,
    >)
        requires
            old(self).wf(),
        ensures
            final(self).wf(),
            !old(self)@.admins.contains(ctx.caller) ==> r == Err::<MintedTokens, MysteryBoxError>(
                MysteryBoxError::NotAdmin,
            ) && final(self)@ == old(self)@,
            old(self)@.admins.contains(ctx.caller) && old(self)@.winning_rates.len() == 0 ==> r
                == Err::<MintedTokens, MysteryBoxError>(MysteryBoxError::NotSetUp) && final(self)@
                == old(self)@,
            old(self)@.admins.contains(ctx.caller) && old(self)@.winning_rates.len() != 0 ==> match mint_outcome(
                old(self)@,
                amount,
                old(self)@.winning_rates,
            ) {
                Ok((t, m)) => r is Ok && r->Ok_0@ == m && final(self)@ == t,
                Err(e) => r == Err::<MintedTokens, MysteryBoxError>(e) && final(self)@ == old(self)@,
            },
    {
        self.require_caller_is_admin(ctx)?;
        if self.winning_rates.len() == 0 {
            return Err(MysteryBoxError::NotSetUp);
        }
        let mystery_box_attributes = duplicate_rewards(&self.winning_rates);
        self.create_new_tokens(amount, &mystery_box_attributes)
    }

    /// Counts a win of `reward` in `current_epoch` against its cooldown;
    /// returns whether the reward is held back.
    pub fn check_reward_cooldown(&mut self, current_epoch: u64, reward: &Reward) -> (r: Result<
        bool,
        MysteryBoxError,
    >)
        requires
            old(self).wf(),
        ensures
            final(self).wf(),
            match table_check(old(self)@.cooldowns, current_epoch, reward@) {
                Ok((t, held)) => r == Ok::<bool, MysteryBoxError>(held) && final(self)@ == (
                MysteryBoxV2State { cooldowns: t, ..old(self)@ }),
                Err(e) => r == Err::<bool, MysteryBoxError>(e) && final(self)@ == old(self)@,
            },
    {
        table_check_in(&mut self.reward_cooldown, current_epoch, reward)
    }

    /// Mints one box holding the rewards set up, for `address`.
    pub fn create_and_send_mystery_box(&mut self, address: Address) -> (r: Result<
        MintedTokens,
        MysteryBoxError,
    >)
        requires
            old(self).wf(),
        ensures
            final(self).wf(),
            match mint_outcome(old(self)@, SFT_AMOUNT as u128, old(self)@.winning_rates) {
                Ok((t, m)) => r is Ok && r->Ok_0@ == m && final(self)@ == t,
                Err(e) => r == Err::<MintedTokens, MysteryBoxError>(e) && final(self)@ == old(self)@,
            },
    {
        let new_attributes = duplicate_rewards(&self.winning_rates);
        self.create_new_tokens(SFT_AMOUNT as u128, &new_attributes)
    }

    /// Opens the box paid on the rewards `attributes`: `payments` are the
    /// tokens the call carries and `draws` the random numbers drawn for it,
    /// from 1 to 100%, one after the other. Returns the reward won, the new
    /// box for the opener when it is a box, and the box paid, to be burnt.
    #[verifier::loop_isolation(false)]
    fn open_with_attributes(
        &mut self,
        ctx: &TxContext,
        payments: &Vec<EsdtTokenPayment>,
        attributes: &Vec<Reward>,
        draws: &Vec<u64>,
    ) -> (r: Result<OpenedBox, MysteryBoxError>)
        requires
            old(self).wf(),
        ensures
            final(self).wf(),
            match open_outcome(
                old(self)@,
                *ctx,
                payments_view(payments@),
                rewards_view(attributes@),
                draws@,
            ) {
                Ok((t, reward, new_box)) => r is Ok && final(self)@ == t && r->Ok_0.reward@ == reward
                    && r->Ok_0.burned@ == payments_view(payments@)[0] && match new_box {
                    Some(m) => r->Ok_0.new_box is Some && r->Ok_0.new_box->Some_0@ == m,
                    None => r->Ok_0.new_box is None,
                },
                Err(e) => r is Err && r->Err_0 == e && final(self)@ == old(self)@,
            },
    {
        let ghost s = self@;
        let ghost attrs = rewards_view(attributes@);
        if ctx.caller_is_contract {
            return Err(MysteryBoxError::OnlyUserAccounts);
        }
        if payments.len() != 1 {
            return Err(MysteryBoxError::IncorrectNumberOfEsdtTransfers);
        }
        let payment = &payments[0];
        if !bytes_eq(&payment.token_identifier, &self.mystery_box_token_id) {
            return Err(MysteryBoxError::BadPaymentToken);
        }
        if payment.amount != SFT_AMOUNT as u128 {
            return Err(MysteryBoxError::BadPaymentAmount);
        }
        assert(payments_view(payments@)[0] == payment@);
        let current_epoch = ctx.block_epoch;
        let mut table = copy_vec(&self.reward_cooldown);
        let mut won = Reward::default();
        if attributes.len() != 0 {
            let mut k: usize = 0;
            let mut found = false;
            proof {
                assert(draws@.subrange(0, draws@.len() as int) =~= draws@);
            }
            while !found
                invariant
                    self@ == s,
                    k <= draws@.len(),
                    table@.len() == s.cooldowns.len(),
                    !found ==> draw_loop(s.cooldowns, current_epoch, attrs, draws@) == draw_loop(
                        table@,
                        current_epoch,
                        attrs,
                        draws@.subrange(k as int, draws@.len() as int),
                    ),
                    found ==> draw_loop(s.cooldowns, current_epoch, attrs, draws@) == Ok::<
                        (Seq<RewardCooldown>, RewardView),
                        MysteryBoxError,
                    >((table@, won@)),
                decreases draws@.len() - k + (if found { 0int } else { 1int }),
            {
                if k == draws.len() {
                    proof {
                        assert(draws@.subrange(k as int, draws@.len() as int) =~= Seq::<u64>::empty());
                    }
                    return Err(MysteryBoxError::DrawsExhausted);
                }
                proof {
                    lemma_draw_loop_unfold(table@, current_epoch, attrs, draws@, k as int);
                }
                let candidate = get_winning_reward(attributes, draws[k]);
                let held = table_check_in(&mut table, current_epoch, &candidate)?;
                if !held {
                    won = candidate;
                    found = true;
                } else {
                    k = k + 1;
                }
            }
        }
        let ghost t = MysteryBoxV2State { cooldowns: table@, ..s };
        if won.reward_type == RewardType::MysteryBox && self.last_nonce == u64::MAX
            && self.find_nonce(&self.winning_rates) == 0 {
            return Err(MysteryBoxError::ArithmeticOverflow);
        }
        self.reward_cooldown = table;
        assert(self@ == t);
        let mut new_box: Option<MintedTokens> = None;
        if won.reward_type == RewardType::MysteryBox {
            let minted = self.create_and_send_mystery_box(ctx.caller);
            match minted {
                Ok(m) => {
                    new_box = Some(m);
                },
                Err(e) => {
                    return Err(e);
                },
            }
        }
        Ok(OpenedBox { reward: won, new_box, burned: payment.duplicate() })
    }
}

/// The result of opening a box: the reward won and, when it is a box, the
/// new box for the opener.
#[derive(Clone, Debug)]
pub struct OpenedBox {
    pub reward: Reward,
    pub new_box: Option<MintedTokens>,
    /// The box paid, which is burnt.
    pub burned: EsdtTokenPayment,
}


impl MysteryBox {
    /// The attributes the box tokens of nonce `nonce` were minted with, if any.
    fn find_attributes(&self, nonce: u64) -> (r: Option<Vec<Reward>>)
        ensures
            match attributes_of(self@.nonce_by_attributes, nonce) {
                Some(a) => r is Some && rewards_view(r->Some_0@) == a,
                None => r is None,
            },
    {
        let ghost list = self@.nonce_by_attributes;
        let mut i: usize = self.nonce_by_attributes.len();
        proof {
            assert(list.subrange(0, i as int) =~= list);
        }
        while i > 0
            invariant
                i <= list.len(),
                list == attribute_nonces_view(self.nonce_by_attributes@),
                attributes_of(list, nonce) == attributes_of(list.subrange(0, i as int), nonce),
            decreases i,
        {
            proof {
                assert(list.subrange(0, i as int).drop_last() =~= list.subrange(0, i - 1));
            }
            let entry = &self.nonce_by_attributes[i - 1];
            if entry.1 == nonce {
                return Some(duplicate_rewards(&entry.0));
            }
            i = i - 1;
        }
        None
    }

    /// A user opens a box it paid, one box token: the box is opened on the
    /// rewards its nonce was minted with; `draws` are the random numbers
    /// drawn for it, from 1 to 100%, one after the other. Returns the reward
    /// won, the new box for the opener when the reward is a box, and the box
    /// paid, which is burnt.
    pub fn open_mystery_box(
        &mut self,
        ctx: &TxContext,
        payments: &Vec<EsdtTokenPayment>,
        draws: &Vec<u64>,
    ) -> (r: Result<OpenedBox, MysteryBoxError>)
        requires
            old(self).wf(),
        ensures
            final(self).wf(),
            match open_box_outcome(old(self)@, *ctx, payments_view(payments@), draws@) {
                Ok((t, reward, new_box)) => r is Ok && final(self)@ == t && r->Ok_0.reward@ == reward
                    && r->Ok_0.burned@ == payments_view(payments@)[0] && match new_box {
                    Some(m) => r->Ok_0.new_box is Some && r->Ok_0.new_box->Some_0@ == m,
                    None => r->Ok_0.new_box is None,
                },
                Err(e) => r is Err && r->Err_0 == e && final(self)@ == old(self)@,
            },
    {
        let mut attributes: Vec<Reward> = Vec::new();
        if payments.len() == 1 {
            let payment = &payments[0];
            assert(payments_view(payments@)[0] == payment@);
            match self.find_attributes(payment.token_nonce) {
                Some(a) => {
                    attributes = a;
                },
                None => {
                    if !ctx.caller_is_contract && bytes_eq(&payment.token_identifier, &self.mystery_box_token_id)
                        && payment.amount == SFT_AMOUNT as u128 {
                        return Err(MysteryBoxError::UnknownBoxNonce);
                    }
                },
            }
        }
        proof {
            if box_attributes(self@, payments_view(payments@)) is None {
                assert(rewards_view(attributes@) =~= Seq::<RewardView>::empty());
            }
        }
        self.open_with_attributes(ctx, payments, &attributes, draws)
    }
}

} // verus!
