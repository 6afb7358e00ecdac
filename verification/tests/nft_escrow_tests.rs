use mvx_contracts::common::{EsdtTokenPayment, TxContext};
use mvx_contracts::nft_escrow::contract::{EscrowError, NftEscrowContract};

const FIRST: u64 = 1;
const SECOND: u64 = 2;
const THIRD: u64 = 3;

fn nft() -> Vec<u8> {
    b"NFT-123456".to_vec()
}

fn nft2() -> Vec<u8> {
    b"NFT2-123456".to_vec()
}

fn ctx(caller: u64) -> TxContext {
    TxContext {
        caller,
        caller_is_contract: false,
        caller_shard: 0,
        contract_shard: 0,
        block_epoch: 0,
        block_timestamp: 0,
    }
}

fn pay(token: Vec<u8>, nonce: u64, amount: u128) -> Vec<EsdtTokenPayment> {
    vec![EsdtTokenPayment::new(token, nonce, amount)]
}

/// The first user offers its NFT for the second user's NFT.
fn with_offer() -> NftEscrowContract {
    let mut sc = NftEscrowContract::init();
    let id = sc.escrow(&ctx(FIRST), &pay(nft(), 1, 1), nft2(), 1, SECOND).unwrap();
    assert_eq!(id, 1);
    sc
}

#[test]
fn init_go() {
    let sc = NftEscrowContract::init();
    assert!(sc.get_offer(1).is_none());
    assert!(sc.get_created_offers(FIRST).is_empty());
    assert!(sc.get_wanted_offers(SECOND).is_empty());
}

#[test]
fn escrow_go() {
    let mut sc = NftEscrowContract::init();
    assert_eq!(
        sc.escrow(&ctx(FIRST), &pay(nft(), 0, 1), nft2(), 1, SECOND).err().unwrap(),
        EscrowError::NotAnNft
    );
    assert_eq!(
        sc.escrow(&ctx(FIRST), &pay(nft(), 1, 2), nft2(), 1, SECOND).err().unwrap(),
        EscrowError::NotAnNft
    );
    assert_eq!(
        sc.escrow(&ctx(FIRST), &pay(nft(), 1, 1), nft2(), 0, SECOND).err().unwrap(),
        EscrowError::WantedNotAnNft
    );
    assert_eq!(
        sc.escrow(&ctx(FIRST), &pay(nft(), 1, 1), nft2(), 1, FIRST).err().unwrap(),
        EscrowError::WantedAddressIsCaller
    );
    assert_eq!(
        sc.escrow(&ctx(FIRST), &Vec::new(), nft2(), 1, SECOND).err().unwrap(),
        EscrowError::IncorrectNumberOfEsdtTransfers
    );
    let id = sc.escrow(&ctx(FIRST), &pay(nft(), 1, 1), nft2(), 1, SECOND).unwrap();
    assert_eq!(id, 1);
    let offer = sc.get_offer(1).unwrap();
    assert_eq!(offer.creator, FIRST);
    assert_eq!(offer.nft, nft());
    assert_eq!(offer.nonce, 1);
    assert_eq!(offer.wanted_nft, nft2());
    assert_eq!(offer.wanted_nonce, 1);
    assert_eq!(offer.wanted_address, SECOND);
    let id2 = sc.escrow(&ctx(FIRST), &pay(nft(), 2, 1), nft2(), 2, THIRD).unwrap();
    assert_eq!(id2, 2);
}

#[test]
fn cancel_go() {
    let mut sc = with_offer();
    assert_eq!(sc.cancel(&ctx(FIRST), 2).err().unwrap(), EscrowError::OfferDoesNotExist);
    assert_eq!(sc.cancel(&ctx(SECOND), 1).err().unwrap(), EscrowError::OnlyCreatorCanCancel);
    let transfer = sc.cancel(&ctx(FIRST), 1).unwrap();
    assert_eq!(transfer.to, FIRST);
    assert_eq!(transfer.payment.token_identifier, nft());
    assert_eq!(transfer.payment.token_nonce, 1);
    assert_eq!(transfer.payment.amount, 1);
    assert!(sc.get_offer(1).is_none());
    assert!(sc.get_created_offers(FIRST).is_empty());
    assert!(sc.get_wanted_offers(SECOND).is_empty());
    assert_eq!(sc.cancel(&ctx(FIRST), 1).err().unwrap(), EscrowError::OfferDoesNotExist);
}

#[test]
fn accept_go() {
    let mut sc = with_offer();
    assert_eq!(
        sc.accept(&ctx(SECOND), &pay(nft2(), 1, 1), 2).err().unwrap(),
        EscrowError::OfferDoesNotExist
    );
    assert_eq!(
        sc.accept(&ctx(THIRD), &pay(nft2(), 1, 1), 1).err().unwrap(),
        EscrowError::CannotAccept
    );
    assert_eq!(
        sc.accept(&ctx(SECOND), &pay(nft2(), 2, 1), 1).err().unwrap(),
        EscrowError::NftDoesNotMatch
    );
    let transfers = sc.accept(&ctx(SECOND), &pay(nft2(), 1, 1), 1).unwrap();
    assert_eq!(transfers.len(), 2);
    assert_eq!(transfers[0].to, FIRST);
    assert_eq!(transfers[0].payment.token_identifier, nft2());
    assert_eq!(transfers[0].payment.token_nonce, 1);
    assert_eq!(transfers[1].to, SECOND);
    assert_eq!(transfers[1].payment.token_identifier, nft());
    assert_eq!(transfers[1].payment.token_nonce, 1);
    assert!(sc.get_offer(1).is_none());
    assert!(sc.get_created_offers(FIRST).is_empty());
    assert!(sc.get_wanted_offers(SECOND).is_empty());
}

#[test]
fn views_go() {
    let mut sc = with_offer();
    sc.escrow(&ctx(FIRST), &pay(nft(), 2, 1), nft2(), 2, THIRD).unwrap();
    sc.escrow(&ctx(SECOND), &pay(nft2(), 3, 1), nft(), 3, THIRD).unwrap();

    let created = sc.get_created_offers(FIRST);
    let ids: Vec<u32> = created.iter().map(|(id, _)| *id).collect();
    assert_eq!(ids, vec![1, 2]);
    assert_eq!(created[1].1.wanted_address, THIRD);

    let wanted = sc.get_wanted_offers(THIRD);
    let ids: Vec<u32> = wanted.iter().map(|(id, _)| *id).collect();
    assert_eq!(ids, vec![2, 3]);
    assert_eq!(wanted[1].1.creator, SECOND);

    // cancelling the first offer moves the last one into its place
    sc.cancel(&ctx(FIRST), 1).unwrap();
    let ids: Vec<u32> = sc.get_created_offers(FIRST).iter().map(|(id, _)| *id).collect();
    assert_eq!(ids, vec![2]);
    assert!(sc.get_wanted_offers(SECOND).is_empty());
}
