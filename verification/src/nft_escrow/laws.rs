//! Properties of the NFT escrow that span its operations.
use vstd::prelude::*;
use crate::common::{Address, PaymentView, TxContext};
use crate::unordered_set::{
    insert_value, lemma_insert_value_members, lemma_remove_value_members, remove_value,
    swap_removed,
};
use super::contract::{
    accept_outcome, cancel_outcome, closed, created_of, escrow_outcome, escrow_wf, offer_of,
    wanted_of, with_listed, EscrowError, EscrowState, OfferView,
};

verus! {

/// Closing an open offer keeps the storage consistent, and the offer is
/// listed nowhere any more.
pub proof fn lemma_closing_keeps_wf(s: EscrowState, id: u64, o: OfferView)
    requires
        escrow_wf(s),
        offer_of(s, id) == Some(o),
    ensures
        escrow_wf(closed(s, id, o)),
        forall|a: Address|
            !(#[trigger] created_of(closed(s, id, o), a)).contains(id) && !wanted_of(
                closed(s, id, o),
                a,
            ).contains(id),
{
    let t = closed(s, id, o);
    let c = created_of(s, o.creator);
    let w = wanted_of(s, o.wanted_address);
    assert(c.no_duplicates()) by {
        if s.created_offers.contains_key(o.creator) {
        } else {
            assert(c =~= Seq::<u64>::empty());
        }
    }
    assert(w.no_duplicates()) by {
        if s.wanted_offers.contains_key(o.wanted_address) {
        } else {
            assert(w =~= Seq::<u64>::empty());
        }
    }
    lemma_remove_value_members(c, id);
    lemma_remove_value_members(w, id);
    assert forall|a: Address| #[trigger] t.created_offers.contains_key(a) implies t.created_offers[
        a
    ].no_duplicates() by {
        if a != o.creator {
            assert(t.created_offers[a] == s.created_offers[a]);
        }
    }
    assert forall|a: Address| #[trigger] t.wanted_offers.contains_key(a) implies t.wanted_offers[
        a
    ].no_duplicates() by {
        if a != o.wanted_address {
            assert(t.wanted_offers[a] == s.wanted_offers[a]);
        }
    }
    assert forall|a: Address, x: u64| #[trigger]
        created_of(t, a).contains(x) implies offer_of(t, x) is Some && offer_of(t, x)->Some_0.creator
        == a && x != id by {
        if a == o.creator {
            assert(created_of(t, a) == remove_value(c, id));
            assert(c.contains(x));
        } else {
            assert(created_of(t, a) == created_of(s, a));
        }
        assert(offer_of(s, x) is Some && offer_of(s, x)->Some_0.creator == a);
        assert(x != id);
        assert(offer_of(t, x) == offer_of(s, x));
    }
    assert forall|a: Address, x: u64| #[trigger]
        wanted_of(t, a).contains(x) implies offer_of(t, x) is Some && offer_of(
            t,
            x,
        )->Some_0.wanted_address == a && x != id by {
        if a == o.wanted_address {
            assert(wanted_of(t, a) == remove_value(w, id));
            assert(w.contains(x));
        } else {
            assert(wanted_of(t, a) == wanted_of(s, a));
        }
        assert(offer_of(s, x) is Some && offer_of(s, x)->Some_0.wanted_address == a);
        assert(x != id);
        assert(offer_of(t, x) == offer_of(s, x));
    }
}

/// A new offer keeps the storage consistent.
pub proof fn lemma_escrow_keeps_wf(
    s: EscrowState,
    ctx: TxContext,
    payments: Seq<PaymentView>,
    wanted_nft: Seq<u8>,
    wanted_nonce: u64,
    wanted_address: Address,
)
    requires
        escrow_wf(s),
        escrow_outcome(s, ctx, payments, wanted_nft, wanted_nonce, wanted_address) is Ok,
    ensures
        escrow_wf(escrow_outcome(s, ctx, payments, wanted_nft, wanted_nonce, wanted_address)->Ok_0.0),
{
    let (t, id32) = escrow_outcome(s, ctx, payments, wanted_nft, wanted_nonce, wanted_address)->Ok_0;
    let id = id32 as u64;
    let creator = ctx.caller;
    let c = created_of(s, creator);
    let w = wanted_of(s, wanted_address);
    assert(c.no_duplicates()) by {
        if !s.created_offers.contains_key(creator) {
            assert(c =~= Seq::<u64>::empty());
        }
    }
    assert(w.no_duplicates()) by {
        if !s.wanted_offers.contains_key(wanted_address) {
            assert(w =~= Seq::<u64>::empty());
        }
    }
    lemma_insert_value_members(c, id);
    lemma_insert_value_members(w, id);
    assert(offer_of(s, id) is None);
    assert forall|a: Address| #[trigger] t.created_offers.contains_key(a) implies t.created_offers[
        a
    ].no_duplicates() by {
        if a != creator {
            assert(t.created_offers[a] == s.created_offers[a]);
        }
    }
    assert forall|a: Address| #[trigger] t.wanted_offers.contains_key(a) implies t.wanted_offers[
        a
    ].no_duplicates() by {
        if a != wanted_address {
            assert(t.wanted_offers[a] == s.wanted_offers[a]);
        }
    }
    assert forall|a: Address, x: u64| #[trigger]
        created_of(t, a).contains(x) implies offer_of(t, x) is Some && offer_of(t, x)->Some_0.creator
        == a by {
        if a == creator {
            assert(created_of(t, a) == insert_value(c, id));
            if x != id {
                assert(c.contains(x));
                assert(offer_of(s, x) is Some);
                assert(offer_of(t, x) == offer_of(s, x));
            }
        } else {
            assert(created_of(t, a) == created_of(s, a));
            assert(offer_of(s, x) is Some && offer_of(s, x)->Some_0.creator == a);
            assert(offer_of(t, x) == offer_of(s, x));
        }
    }
    assert forall|a: Address, x: u64| #[trigger]
        wanted_of(t, a).contains(x) implies offer_of(t, x) is Some && offer_of(
            t,
            x,
        )->Some_0.wanted_address == a by {
        if a == wanted_address {
            assert(wanted_of(t, a) == insert_value(w, id));
            if x != id {
                assert(w.contains(x));
                assert(offer_of(s, x) is Some);
                assert(offer_of(t, x) == offer_of(s, x));
            }
        } else {
            assert(wanted_of(t, a) == wanted_of(s, a));
            assert(offer_of(s, x) is Some && offer_of(s, x)->Some_0.wanted_address == a);
            assert(offer_of(t, x) == offer_of(s, x));
        }
    }
}

/// Cancelling or accepting an offer closes it: it is gone and listed for
/// nobody, and the storage stays consistent.
pub proof fn lemma_closed_offer_is_gone(
    s: EscrowState,
    ctx: TxContext,
    payments: Seq<PaymentView>,
    offer_id: u32,
)
    requires
        escrow_wf(s),
    ensures
        cancel_outcome(s, ctx, offer_id) is Ok ==> ({
            let t = cancel_outcome(s, ctx, offer_id)->Ok_0.0;
            &&& escrow_wf(t)
            &&& offer_of(t, offer_id as u64) is None
            &&& forall|a: Address|
                !(#[trigger] created_of(t, a)).contains(offer_id as u64) && !wanted_of(
                    t,
                    a,
                ).contains(offer_id as u64)
        }),
        accept_outcome(s, ctx, payments, offer_id) is Ok ==> ({
            let t = accept_outcome(s, ctx, payments, offer_id)->Ok_0.0;
            &&& escrow_wf(t)
            &&& offer_of(t, offer_id as u64) is None
            &&& forall|a: Address|
                !(#[trigger] created_of(t, a)).contains(offer_id as u64) && !wanted_of(
                    t,
                    a,
                ).contains(offer_id as u64)
        }),
{
    if let Some(o) = offer_of(s, offer_id as u64) {
        lemma_closing_keeps_wf(s, offer_id as u64, o);
    }
}


proof fn lemma_push_then_remove(c: Seq<u64>, id: u64)
    requires
        !c.contains(id),
    ensures
        remove_value(insert_value(c, id), id) == c,
{
    let p = c.push(id);
    assert(p[c.len() as int] == id);
    assert(p.contains(id));
    let k = p.index_of(id);
    if k < c.len() {
        assert(c[k] == id);
    }
    assert(swap_removed(p, k) =~= c);
}

/// The creator who cancels an offer right after making it gets the NFT
/// back, and every list of offers is as it was; only the offer id stays used.
pub proof fn lemma_cancel_undoes_escrow(
    s: EscrowState,
    ctx: TxContext,
    payments: Seq<PaymentView>,
    wanted_nft: Seq<u8>,
    wanted_nonce: u64,
    wanted_address: Address,
)
    requires
        escrow_wf(s),
        escrow_outcome(s, ctx, payments, wanted_nft, wanted_nonce, wanted_address) is Ok,
    ensures
        ({
            let (t, id) = escrow_outcome(s, ctx, payments, wanted_nft, wanted_nonce, wanted_address)->Ok_0;
            &&& cancel_outcome(t, ctx, id) is Ok
            &&& cancel_outcome(t, ctx, id)->Ok_0.1 == crate::common::transfer_of(
                ctx.caller,
                payments[0].token_identifier,
                payments[0].token_nonce,
                1,
            )
            &&& forall|a: Address| #[trigger]
                created_of(cancel_outcome(t, ctx, id)->Ok_0.0, a) == created_of(s, a)
                    && wanted_of(cancel_outcome(t, ctx, id)->Ok_0.0, a) == wanted_of(s, a)
            &&& cancel_outcome(t, ctx, id)->Ok_0.0.offers == s.offers.push(None)
        }),
{
    let (t, id32) = escrow_outcome(s, ctx, payments, wanted_nft, wanted_nonce, wanted_address)->Ok_0;
    let id = id32 as u64;
    let creator = ctx.caller;
    assert(offer_of(s, id) is None);
    let c = created_of(s, creator);
    let w = wanted_of(s, wanted_address);
    assert(!c.contains(id));
    assert(!w.contains(id));
    lemma_push_then_remove(c, id);
    lemma_push_then_remove(w, id);
    let o = offer_of(t, id)->Some_0;
    let u = cancel_outcome(t, ctx, id32)->Ok_0.0;
    assert(u == closed(t, id, o));
    assert forall|a: Address| #[trigger]
        created_of(u, a) == created_of(s, a) && wanted_of(u, a) == wanted_of(s, a) by {
        if a == creator {
            assert(created_of(t, a) == insert_value(c, id));
        }
        if a == wanted_address {
            assert(wanted_of(t, a) == insert_value(w, id));
        }
    }
    assert(u.offers =~= s.offers.push(None));
}


/// Cancelling undoes an escrow, also after other calls, as long as they
/// left the offer and the lists of its creator and of the wanted address as
/// the escrow made them (`later` is the storage then): the creator gets the
/// NFT back and those two lists are as before the escrow; the other lists
/// are left alone. Anybody else who tries to cancel the offer is refused.
pub proof fn lemma_cancel_undoes_escrow_later(
    s: EscrowState,
    ctx: TxContext,
    payments: Seq<PaymentView>,
    wanted_nft: Seq<u8>,
    wanted_nonce: u64,
    wanted_address: Address,
    later: EscrowState,
    other: TxContext,
)
    requires
        escrow_wf(s),
        escrow_outcome(s, ctx, payments, wanted_nft, wanted_nonce, wanted_address) is Ok,
        ({
            let (t, id) = escrow_outcome(s, ctx, payments, wanted_nft, wanted_nonce, wanted_address)->Ok_0;
            &&& offer_of(later, id as u64) == offer_of(t, id as u64)
            &&& created_of(later, ctx.caller) == created_of(t, ctx.caller)
            &&& wanted_of(later, wanted_address) == wanted_of(t, wanted_address)
        }),
        other.caller != ctx.caller,
    ensures
        ({
            let id = escrow_outcome(s, ctx, payments, wanted_nft, wanted_nonce, wanted_address)->Ok_0.1;
            let u = cancel_outcome(later, ctx, id)->Ok_0.0;
            &&& cancel_outcome(later, ctx, id) is Ok
            &&& cancel_outcome(later, ctx, id)->Ok_0.1 == crate::common::transfer_of(
                ctx.caller,
                payments[0].token_identifier,
                payments[0].token_nonce,
                1,
            )
            &&& offer_of(u, id as u64) is None
            &&& created_of(u, ctx.caller) == created_of(s, ctx.caller)
            &&& wanted_of(u, wanted_address) == wanted_of(s, wanted_address)
            &&& forall|a: Address| a != ctx.caller ==> #[trigger] created_of(u, a) == created_of(later, a)
            &&& forall|a: Address| a != wanted_address ==> #[trigger] wanted_of(u, a) == wanted_of(later, a)
            &&& cancel_outcome(later, other, id) == Err::<(EscrowState, crate::common::TransferView), EscrowError>(
                EscrowError::OnlyCreatorCanCancel,
            )
        }),
{
    let (t, id32) = escrow_outcome(s, ctx, payments, wanted_nft, wanted_nonce, wanted_address)->Ok_0;
    let id = id32 as u64;
    let creator = ctx.caller;
    assert(offer_of(s, id) is None);
    let c = created_of(s, creator);
    let w = wanted_of(s, wanted_address);
    assert(!c.contains(id));
    assert(!w.contains(id));
    lemma_push_then_remove(c, id);
    lemma_push_then_remove(w, id);
    assert(created_of(t, creator) == insert_value(c, id));
    assert(wanted_of(t, wanted_address) == insert_value(w, id));
    let o = offer_of(later, id)->Some_0;
    assert(o.creator == creator && o.wanted_address == wanted_address);
    let u = cancel_outcome(later, ctx, id32)->Ok_0.0;
    assert(u == closed(later, id, o));
}


/// An accepted offer swaps exactly the NFTs it names: the call carried one
/// token, the wanted NFT itself (its token, its nonce, one unit), and the
/// creator receives exactly that NFT while the caller, the user the offer
/// was made to, receives the escrowed one.
pub proof fn lemma_accept_swaps_the_named_nfts(s: EscrowState, ctx: TxContext, payments: Seq<PaymentView>, id: u32)
    requires
        accept_outcome(s, ctx, payments, id) is Ok,
    ensures
        ({
            let o = offer_of(s, id as u64)->Some_0;
            let ts = accept_outcome(s, ctx, payments, id)->Ok_0.1;
            &&& offer_of(s, id as u64) is Some
            &&& ctx.caller == o.wanted_address
            &&& payments.len() == 1
            &&& payments[0].token_identifier == o.wanted_nft
            &&& payments[0].token_nonce == o.wanted_nonce
            &&& payments[0].amount == 1
            &&& ts.len() == 2
            &&& ts[0] == crate::common::transfer_of(o.creator, o.wanted_nft, o.wanted_nonce, 1)
            &&& ts[1] == crate::common::transfer_of(ctx.caller, o.nft, o.nonce, 1)
        }),
{
}

} // verus!
