//! The storage of the escrow and its endpoints.
use vstd::prelude::*;
use std::collections::HashMap;
use crate::common::{
    bytes_eq, transfer_of, transfers_view, Address, EsdtTokenPayment, PaymentView, Transfer,
    TransferView, TxContext,
};
use crate::unordered_set::{insert_value, remove_value, UnorderedSet};
use super::laws::{lemma_closing_keeps_wf, lemma_escrow_keeps_wf};

verus! {

/// An NFT offered in exchange for another one, held by `wanted_address`.
#[derive(Clone, Debug)]
pub struct Offer {
    pub creator: Address,
    pub nft: Vec<u8>,
    pub nonce: u64,
    pub wanted_nft: Vec<u8>,
    pub wanted_nonce: u64,
    pub wanted_address: Address,
}

/// An offer as plain values.
pub ghost struct OfferView {
    pub creator: Address,
    pub nft: Seq<u8>,
    pub nonce: u64,
    pub wanted_nft: Seq<u8>,
    pub wanted_nonce: u64,
    pub wanted_address: Address,
}

impl View for Offer {
    type V = OfferView;

    open spec fn view(&self) -> OfferView {
        OfferView {
            creator: self.creator,
            nft: self.nft@,
            nonce: self.nonce,
            wanted_nft: self.wanted_nft@,
            wanted_nonce: self.wanted_nonce,
            wanted_address: self.wanted_address,
        }
    }
}

impl Offer {
    /// A copy of the offer.
    pub fn duplicate(&self) -> (o: Self)
        ensures
            o@ == self@,
    {
        Offer {
            creator: self.creator,
            nft: self.nft.clone(),
            nonce: self.nonce,
            wanted_nft: self.wanted_nft.clone(),
            wanted_nonce: self.wanted_nonce,
            wanted_address: self.wanted_address,
        }
    }
}

/// The reasons an escrow endpoint fails; each names the message the
/// contract fails with.
#[derive(Clone, Copy, Debug, PartialEq, Eq, Structural)]
pub enum EscrowError {
    /// "incorrect number of ESDT transfers"
    IncorrectNumberOfEsdtTransfers,
    /// "ESDT is not an NFT"
    NotAnNft,
    /// "Wanted ESDT is not an NFT"
    WantedNotAnNft,
    /// "Wanted address should not be the same as the caller"
    WantedAddressIsCaller,
    /// "Offer does not exist"
    OfferDoesNotExist,
    /// "Only the offer creator can cancel it"
    OnlyCreatorCanCancel,
    /// "Can not accept this offer"
    CannotAccept,
    /// "NFT does not match"
    NftDoesNotMatch,
    /// A number would exceed its width; the virtual machine fails such a transaction.
    ArithmeticOverflow,
}

/// The escrow's storage as plain values. Offers are numbered from 1; the
/// offer numbered `n` sits at position `n - 1`.
pub ghost struct EscrowState {
    pub last_offer_id: u32,
    /// Each offer, until it is cancelled or accepted.
    pub offers: Seq<Option<OfferView>>,
    /// The offers each user created, in the order kept in storage.
    pub created_offers: Map<Address, Seq<u64>>,
    /// The offers made to each user, in the order kept in storage.
    pub wanted_offers: Map<Address, Seq<u64>>,
}

pub open spec fn offer_of(s: EscrowState, id: u64) -> Option<OfferView> {
    if 1 <= id <= s.offers.len() {
        s.offers[id - 1]
    } else {
        None
    }
}

pub open spec fn created_of(s: EscrowState, a: Address) -> Seq<u64> {
    if s.created_offers.contains_key(a) {
        s.created_offers[a]
    } else {
        Seq::empty()
    }
}

pub open spec fn wanted_of(s: EscrowState, a: Address) -> Seq<u64> {
    if s.wanted_offers.contains_key(a) {
        s.wanted_offers[a]
    } else {
        Seq::empty()
    }
}

/// What the storage always satisfies: the offer ids match the offer table,
/// and every offer listed for a user is an open offer created by that user,
/// or made to that user, listed once.
pub open spec fn escrow_wf(s: EscrowState) -> bool {
    &&& s.offers.len() == s.last_offer_id
    &&& forall|a: Address| #[trigger]
        s.created_offers.contains_key(a) ==> s.created_offers[a].no_duplicates()
    &&& forall|a: Address| #[trigger]
        s.wanted_offers.contains_key(a) ==> s.wanted_offers[a].no_duplicates()
    &&& forall|a: Address, id: u64| #[trigger]
        created_of(s, a).contains(id) ==> offer_of(s, id) is Some && offer_of(s, id)->Some_0.creator
            == a
    &&& forall|a: Address, id: u64| #[trigger]
        wanted_of(s, a).contains(id) ==> offer_of(s, id) is Some && offer_of(
            s,
            id,
        )->Some_0.wanted_address == a
}

/// The single payment of a call, or why there is none.
pub open spec fn single_payment(payments: Seq<PaymentView>) -> Result<PaymentView, EscrowError> {
    if payments.len() != 1 {
        Err(EscrowError::IncorrectNumberOfEsdtTransfers)
    } else {
        Ok(payments[0])
    }
}

pub open spec fn payments_view(v: Seq<EsdtTokenPayment>) -> Seq<PaymentView> {
    v.map_values(|p: EsdtTokenPayment| p@)
}

/// The storage after offer `id` is listed for its creator and for the user
/// it is made to.
pub open spec fn with_listed(s: EscrowState, id: u64, creator: Address, wanted: Address) -> EscrowState {
    let s1 = EscrowState {
        created_offers: s.created_offers.insert(creator, insert_value(created_of(s, creator), id)),
        ..s
    };
    EscrowState {
        wanted_offers: s1.wanted_offers.insert(wanted, insert_value(wanted_of(s1, wanted), id)),
        ..s1
    }
}

/// The storage after offer `id` is taken off the lists of its creator and
/// of the user it was made to, and closed.
pub open spec fn closed(s: EscrowState, id: u64, o: OfferView) -> EscrowState {
    let s1 = EscrowState {
        created_offers: s.created_offers.insert(o.creator, remove_value(created_of(s, o.creator), id)),
        ..s
    };
    let s2 = EscrowState {
        wanted_offers: s1.wanted_offers.insert(
            o.wanted_address,
            remove_value(wanted_of(s1, o.wanted_address), id),
        ),
        ..s1
    };
    EscrowState { offers: s2.offers.update(id - 1, None), ..s2 }
}

/// What `escrow` does: the call must carry exactly one NFT (a nonce and an
/// amount of 1), the wanted token must be an NFT, and the wanted address
/// must not be the caller's. The offer gets the id after the last one and is
/// listed for its creator and for the wanted address.
pub open spec fn escrow_outcome(
    s: EscrowState,
    ctx: TxContext,
    payments: Seq<PaymentView>,
    wanted_nft: Seq<u8>,
    wanted_nonce: u64,
    wanted_address: Address,
) -> Result<(EscrowState, u32), EscrowError> {
    match single_payment(payments) {
        Err(e) => Err(e),
        Ok(p) => if !(p.token_nonce > 0 && p.amount == 1) {
            Err(EscrowError::NotAnNft)
        } else if wanted_nonce == 0 {
            Err(EscrowError::WantedNotAnNft)
        } else if ctx.caller == wanted_address {
            Err(EscrowError::WantedAddressIsCaller)
        } else if s.last_offer_id == u32::MAX {
            Err(EscrowError::ArithmeticOverflow)
        } else {
            let id = (s.last_offer_id + 1) as u32;
            let offer = OfferView {
                creator: ctx.caller,
                nft: p.token_identifier,
                nonce: p.token_nonce,
                wanted_nft,
                wanted_nonce,
                wanted_address,
            };
            let t = with_listed(s, id as u64, ctx.caller, wanted_address);
            Ok((EscrowState { last_offer_id: id, offers: t.offers.push(Some(offer)), ..t }, id))
        },
    }
}

/// What `cancel` does: the offer must exist and the caller must have
/// created it. The offer is closed and the NFT goes back to its creator.
pub open spec fn cancel_outcome(s: EscrowState, ctx: TxContext, offer_id: u32) -> Result<
    (EscrowState, TransferView),
    EscrowError,
> {
    match offer_of(s, offer_id as u64) {
        None => Err(EscrowError::OfferDoesNotExist),
        Some(o) => if o.creator != ctx.caller {
            Err(EscrowError::OnlyCreatorCanCancel)
        } else {
            Ok((closed(s, offer_id as u64, o), transfer_of(o.creator, o.nft, o.nonce, 1)))
        },
    }
}

/// What `accept` does: the offer must exist, the caller must be the user it
/// is made to, and the call must carry exactly the wanted NFT. The offer is
/// closed and the two NFTs are swapped: the NFT paid goes to the offer's
/// creator, the NFT held in escrow to the caller.
pub open spec fn accept_outcome(
    s: EscrowState,
    ctx: TxContext,
    payments: Seq<PaymentView>,
    offer_id: u32,
) -> Result<(EscrowState, Seq<TransferView>), EscrowError> {
    match offer_of(s, offer_id as u64) {
        None => Err(EscrowError::OfferDoesNotExist),
        Some(o) => if o.wanted_address != ctx.caller {
            Err(EscrowError::CannotAccept)
        } else {
            match single_payment(payments) {
                Err(e) => Err(e),
                Ok(p) => if !(p.token_identifier == o.wanted_nft && p.token_nonce == o.wanted_nonce
                    && p.amount == 1) {
                    Err(EscrowError::NftDoesNotMatch)
                } else {
                    Ok(
                        (
                            closed(s, offer_id as u64, o),
                            seq![
                                TransferView { to: o.creator, payment: p },
                                transfer_of(ctx.caller, o.nft, o.nonce, 1),
                            ],
                        ),
                    )
                },
            }
        },
    }
}


pub open spec fn offers_view(v: Seq<Option<Offer>>) -> Seq<Option<OfferView>> {
    v.map_values(
        |o: Option<Offer>|
            match o {
                Some(x) => Some(x@),
                None => None,
            },
    )
}

pub open spec fn sets_map_view(m: Map<u64, UnorderedSet>) -> Map<Address, Seq<u64>> {
    m.map_values(|x: UnorderedSet| x@)
}

/// The escrow contract: its storage.
pub struct NftEscrowContract {
    last_offer_id: u32,
    offers: Vec<Option<Offer>>,
    created_offers: HashMap<u64, UnorderedSet>,
    wanted_offers: HashMap<u64, UnorderedSet>,
}

impl View for NftEscrowContract {
    type V = EscrowState;

    closed spec fn view(&self) -> EscrowState {
        EscrowState {
            last_offer_id: self.last_offer_id,
            offers: offers_view(self.offers@),
            created_offers: sets_map_view(self.created_offers@),
            wanted_offers: sets_map_view(self.wanted_offers@),
        }
    }
}

impl NftEscrowContract {
    pub open spec fn wf(&self) -> bool {
        escrow_wf(self@)
    }

    /// Deploys the contract, with no offer.
    pub fn init() -> (c: NftEscrowContract)
        ensures
            c.wf(),
            c@ == (EscrowState {
                last_offer_id: 0,
                offers: Seq::empty(),
                created_offers: Map::empty(),
                wanted_offers: Map::empty(),
            }),
    {
        let c = NftEscrowContract {
            last_offer_id: 0,
            offers: Vec::new(),
            created_offers: HashMap::new(),
            wanted_offers: HashMap::new(),
        };
        proof {
            let v = c@;
            assert(v.offers =~= Seq::<Option<OfferView>>::empty());
            assert(v.created_offers =~= Map::<Address, Seq<u64>>::empty());
            assert(v.wanted_offers =~= Map::<Address, Seq<u64>>::empty());
        }
        c
    }

    /// The offers `address` created, in the order kept in storage.
    fn created_set(&self, address: Address) -> (r: UnorderedSet)
        ensures
            r@ == created_of(self@, address),
    {
        match self.created_offers.get(&address) {
            Some(set) => set.duplicate(),
            None => UnorderedSet::new(),
        }
    }

    /// The offers made to `address`, in the order kept in storage.
    fn wanted_set(&self, address: Address) -> (r: UnorderedSet)
        ensures
            r@ == wanted_of(self@, address),
    {
        match self.wanted_offers.get(&address) {
            Some(set) => set.duplicate(),
            None => UnorderedSet::new(),
        }
    }

    /// The open offer `offer_id`, if there is one.
    pub fn get_offer(&self, offer_id: u64) -> (r: Option<Offer>)
        requires
            self.wf(),
        ensures
            match offer_of(self@, offer_id) {
                Some(o) => r is Some && r->Some_0@ == o,
                None => r is None,
            },
    {
        let n = self.offers.len();
        if 1 <= offer_id && offer_id <= n as u64 {
            match &self.offers[(offer_id - 1) as usize] {
                Some(o) => Some(o.duplicate()),
                None => None,
            }
        } else {
            None
        }
    }

    /// The storage after offer `id` is listed for `creator` and `wanted`.
    fn list_offer(&mut self, id: u64, creator: Address, wanted: Address)
        ensures
            final(self)@ == with_listed(old(self)@, id, creator, wanted),
    {
        let ghost s = self@;
        let mut created = self.created_set(creator);
        created.insert(id);
        proof {
            assert(sets_map_view(self.created_offers@.insert(creator, created)) =~= self@.created_offers.insert(
                creator,
                created@,
            ));
        }
        self.created_offers.insert(creator, created);
        let mut wanted_set = self.wanted_set(wanted);
        wanted_set.insert(id);
        proof {
            assert(sets_map_view(self.wanted_offers@.insert(wanted, wanted_set)) =~= self@.wanted_offers.insert(
                wanted,
                wanted_set@,
            ));
        }
        self.wanted_offers.insert(wanted, wanted_set);
    }

    /// Takes open offer `id` off its lists and closes it.
    fn close_offer(&mut self, id: u64, offer: &Offer)
        requires
            1 <= id <= old(self)@.offers.len(),
        ensures
            final(self)@ == closed(old(self)@, id, offer@),
    {
        let mut created = self.created_set(offer.creator);
        created.swap_remove(id);
        proof {
            assert(sets_map_view(self.created_offers@.insert(offer.creator, created)) =~= self@.created_offers.insert(
                offer.creator,
                created@,
            ));
        }
        self.created_offers.insert(offer.creator, created);
        let mut wanted = self.wanted_set(offer.wanted_address);
        wanted.swap_remove(id);
        proof {
            assert(sets_map_view(self.wanted_offers@.insert(offer.wanted_address, wanted)) =~= self@.wanted_offers.insert(
                offer.wanted_address,
                wanted@,
            ));
        }
        self.wanted_offers.insert(offer.wanted_address, wanted);
        let n = self.offers.len();
        assert(id <= n);
        let idx = (id - 1) as usize;
        proof {
            assert(offers_view(self.offers@.update(idx as int, None)) =~= self@.offers.update(idx as int, None));
        }
        self.offers.set(idx, None);
    }
}


impl NftEscrowContract {
    /// A user deposits an NFT, the single payment of the call, in exchange
    /// for NFT `wanted_nft` with nonce `wanted_nonce` held by
    /// `wanted_address`; returns the offer's id.
    pub fn escrow(
        &mut self,
        ctx: &TxContext,
        payments: &Vec<EsdtTokenPayment>,
        wanted_nft: Vec<u8>,
        wanted_nonce: u64,
        wanted_address: Address,
    ) -> (r: Result<u32, EscrowError>)
        requires
            old(self).wf(),
        ensures
            final(self).wf(),
            match escrow_outcome(
                old(self)@,
                *ctx,
                payments_view(payments@),
                wanted_nft@,
                wanted_nonce,
                wanted_address,
            ) {
                Ok((t, id)) => r == Ok::<u32, EscrowError>(id) && final(self)@ == t,
                Err(e) => r == Err::<u32, EscrowError>(e) && final(self)@ == old(self)@,
            },
    {
        let ghost s = self@;
        if payments.len() != 1 {
            return Err(EscrowError::IncorrectNumberOfEsdtTransfers);
        }
        let payment = &payments[0];
        assert(payments_view(payments@)[0] == payment@);
        if !(payment.token_nonce > 0 && payment.amount == 1) {
            return Err(EscrowError::NotAnNft);
        }
        if wanted_nonce == 0 {
            return Err(EscrowError::WantedNotAnNft);
        }
        let creator = ctx.caller;
        if creator == wanted_address {
            return Err(EscrowError::WantedAddressIsCaller);
        }
        if self.last_offer_id == u32::MAX {
            return Err(EscrowError::ArithmeticOverflow);
        }
        let offer_id = self.last_offer_id + 1;
        self.last_offer_id = offer_id;
        self.list_offer(offer_id as u64, creator, wanted_address);
        let offer = Offer {
            creator,
            nft: payment.token_identifier.clone(),
            nonce: payment.token_nonce,
            wanted_nft,
            wanted_nonce,
            wanted_address,
        };
        proof {
            assert(offers_view(self.offers@.push(Some(offer))) =~= offers_view(self.offers@).push(Some(offer@)));
        }
        self.offers.push(Some(offer));
        proof {
            lemma_escrow_keeps_wf(s, *ctx, payments_view(payments@), wanted_nft@, wanted_nonce, wanted_address);
        }
        Ok(offer_id)
    }

    /// The creator of offer `offer_id` cancels it and takes its NFT back;
    /// returns the transfer to make.
    pub fn cancel(&mut self, ctx: &TxContext, offer_id: u32) -> (r: Result<Transfer, EscrowError>)
        requires
            old(self).wf(),
        ensures
            final(self).wf(),
            match cancel_outcome(old(self)@, *ctx, offer_id) {
                Ok((t, tr)) => r is Ok && r->Ok_0@ == tr && final(self)@ == t,
                Err(e) => r is Err && r->Err_0 == e && final(self)@ == old(self)@,
            },
    {
        let ghost s = self@;
        let offer = match self.get_offer(offer_id as u64) {
            Some(o) => o,
            None => {
                return Err(EscrowError::OfferDoesNotExist);
            },
        };
        if offer.creator != ctx.caller {
            return Err(EscrowError::OnlyCreatorCanCancel);
        }
        self.close_offer(offer_id as u64, &offer);
        proof {
            lemma_closing_keeps_wf(s, offer_id as u64, offer@);
        }
        Ok(
            Transfer {
                to: offer.creator,
                payment: EsdtTokenPayment::new(offer.nft, offer.nonce, 1),
            },
        )
    }

    /// The user offer `offer_id` is made to accepts it, paying the wanted
    /// NFT; returns the transfers to make: the NFT paid to the offer's
    /// creator, and the NFT held in escrow to the caller.
    pub fn accept(&mut self, ctx: &TxContext, payments: &Vec<EsdtTokenPayment>, offer_id: u32) -> (r:
        Result<Vec<Transfer>, EscrowError>)
        requires
            old(self).wf(),
        ensures
            final(self).wf(),
            match accept_outcome(old(self)@, *ctx, payments_view(payments@), offer_id) {
                Ok((t, ts)) => r is Ok && transfers_view(r->Ok_0@) == ts && final(self)@ == t,
                Err(e) => r is Err && r->Err_0 == e && final(self)@ == old(self)@,
            },
    {
        let ghost s = self@;
        let offer = match self.get_offer(offer_id as u64) {
            Some(o) => o,
            None => {
                return Err(EscrowError::OfferDoesNotExist);
            },
        };
        if offer.wanted_address != ctx.caller {
            return Err(EscrowError::CannotAccept);
        }
        if payments.len() != 1 {
            return Err(EscrowError::IncorrectNumberOfEsdtTransfers);
        }
        let payment = &payments[0];
        assert(payments_view(payments@)[0] == payment@);
        if !(bytes_eq(&payment.token_identifier, &offer.wanted_nft) && payment.token_nonce
            == offer.wanted_nonce && payment.amount == 1) {
            return Err(EscrowError::NftDoesNotMatch);
        }
        self.close_offer(offer_id as u64, &offer);
        proof {
            lemma_closing_keeps_wf(s, offer_id as u64, offer@);
        }
        let mut transfers: Vec<Transfer> = Vec::new();
        transfers.push(Transfer { to: offer.creator, payment: payment.duplicate() });
        transfers.push(
            Transfer {
                to: ctx.caller,
                payment: EsdtTokenPayment::new(offer.nft, offer.nonce, 1),
            },
        );
        proof {
            assert(transfers_view(transfers@) =~= seq![
                TransferView { to: offer@.creator, payment: payment@ },
                transfer_of(ctx.caller, offer@.nft, offer@.nonce, 1),
            ]);
        }
        Ok(transfers)
    }

    /// The offers with the given ids, each with its id.
    fn offers_by_id(&self, ids: &Vec<u64>) -> (v: Vec<(u32, Offer)>)
        requires
            self.wf(),
            forall|j: int| 0 <= j < ids@.len() ==> #[trigger] offer_of(self@, ids@[j]) is Some,
        ensures
            v@.len() == ids@.len(),
            forall|j: int|
                0 <= j < v@.len() ==> (#[trigger] v@[j]).0 == ids@[j] as u32 && v@[j].1@ == offer_of(
                    self@,
                    ids@[j],
                )->Some_0,
    {
        let mut out: Vec<(u32, Offer)> = Vec::new();
        let mut i: usize = 0;
        while i < ids.len()
            invariant
                self.wf(),
                i <= ids@.len(),
                forall|j: int| 0 <= j < ids@.len() ==> #[trigger] offer_of(self@, ids@[j]) is Some,
                out@.len() == i,
                forall|j: int|
                    0 <= j < i ==> (#[trigger] out@[j]).0 == ids@[j] as u32 && out@[j].1@ == offer_of(
                        self@,
                        ids@[j],
                    )->Some_0,
            decreases ids.len() - i,
        {
            let id = ids[i];
            assert(offer_of(self@, ids@[i as int]) is Some);
            match self.get_offer(id) {
                Some(o) => {
                    out.push((id as u32, o));
                },
                None => {},
            }
            i = i + 1;
        }
        out
    }

    /// The open offers `address` created, each with its id, in the order kept in storage.
    pub fn get_created_offers(&self, address: Address) -> (v: Vec<(u32, Offer)>)
        requires
            self.wf(),
        ensures
            v@.len() == created_of(self@, address).len(),
            forall|j: int|
                0 <= j < v@.len() ==> (#[trigger] v@[j]).0 == created_of(self@, address)[j] as u32
                    && v@[j].1@ == offer_of(self@, created_of(self@, address)[j])->Some_0,
    {
        let ids = self.created_set(address).to_vec();
        assert forall|j: int| 0 <= j < ids@.len() implies #[trigger] offer_of(self@, ids@[j]) is Some by {
            assert(created_of(self@, address).contains(ids@[j]));
        }
        self.offers_by_id(&ids)
    }

    /// The open offers made to `address`, each with its id, in the order kept in storage.
    pub fn get_wanted_offers(&self, address: Address) -> (v: Vec<(u32, Offer)>)
        requires
            self.wf(),
        ensures
            v@.len() == wanted_of(self@, address).len(),
            forall|j: int|
                0 <= j < v@.len() ==> (#[trigger] v@[j]).0 == wanted_of(self@, address)[j] as u32
                    && v@[j].1@ == offer_of(self@, wanted_of(self@, address)[j])->Some_0,
    {
        let ids = self.wanted_set(address).to_vec();
        assert forall|j: int| 0 <= j < ids@.len() implies #[trigger] offer_of(self@, ids@[j]) is Some by {
            assert(wanted_of(self@, address).contains(ids@[j]));
        }
        self.offers_by_id(&ids)
    }
}

} // verus!
