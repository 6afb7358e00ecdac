use mvx_contracts::common::{EsdtTokenPayment, TxContext};
use mvx_contracts::on_chain_claim::address_info::AddressInfo;
use mvx_contracts::on_chain_claim::contract::{ClaimError, ClaimEvent, OnChainClaimContract};

const OWNER: u64 = 1;
const USER: u64 = 2;
const SHARD: u32 = 1;
const TOKEN_NONCE: u64 = 1;

fn repair_token() -> Vec<u8> {
    b"XREPAIR-abcdef".to_vec()
}

fn repair_token_2() -> Vec<u8> {
    b"XREPAIRRR-abcdef".to_vec()
}

fn ctx(caller: u64, epoch: u64) -> TxContext {
    TxContext {
        caller,
        caller_is_contract: false,
        caller_shard: SHARD,
        contract_shard: SHARD,
        block_epoch: epoch,
        block_timestamp: 0,
    }
}

fn setup() -> OnChainClaimContract {
    OnChainClaimContract::init(&ctx(OWNER, 20), repair_token(), TOKEN_NONCE).unwrap()
}

fn set_repair_payment(sc: &mut OnChainClaimContract) {
    sc.set_repair_streak_payment(&ctx(OWNER, 20), repair_token(), TOKEN_NONCE).unwrap();
}

fn info(sc: &OnChainClaimContract) -> AddressInfo {
    sc.address_info(USER).unwrap()
}

fn repair_payment(token: Vec<u8>, amount: u128) -> EsdtTokenPayment {
    EsdtTokenPayment::new(token, TOKEN_NONCE, amount)
}

#[test]
fn check_token_identifier() {
    let mut sc = setup();
    set_repair_payment(&mut sc);
    let payment = sc.get_repair_streak_payment();
    assert_eq!(payment.token_identifier, repair_token());
    assert_eq!(payment.token_nonce, 1);
    assert_eq!(payment.amount, 1);
}

#[test]
fn check_before_claim() {
    let sc = setup();
    assert!(sc.address_info(USER).is_none());
}

#[test]
fn check_update_state() {
    let mut sc = setup();
    assert!(sc.address_info(USER).is_none());
    sc.add_admin(&ctx(OWNER, 20), OWNER).unwrap();
    sc.update_state(&ctx(OWNER, 20), 1, USER, SHARD, 5, 21, 7, 5).unwrap();
    let address_info = info(&sc);
    assert_eq!(address_info.current_streak, 5);
    assert_eq!(address_info.last_epoch_claimed, 21);
    assert_eq!(address_info.total_epochs_claimed, 7);
}

#[test]
fn check_after_claim() {
    let mut sc = setup();
    let event = sc.claim(&ctx(USER, 20)).unwrap();
    let address_info = info(&sc);
    assert_eq!(event, Some(ClaimEvent::NewClaim { address: USER, info: address_info }));
    assert_eq!(address_info.current_streak, 1);
    assert_eq!(address_info.total_epochs_claimed, 1);
    assert_eq!(address_info.last_epoch_claimed, 20);

    sc.claim(&ctx(USER, 21)).unwrap();
    let address_info = info(&sc);
    assert_eq!(address_info.current_streak, 2);
    assert_eq!(address_info.total_epochs_claimed, 2);
    assert_eq!(address_info.last_epoch_claimed, 21);

    sc.claim(&ctx(USER, 25)).unwrap();
    let address_info = info(&sc);
    assert_eq!(address_info.current_streak, 1);
    assert_eq!(address_info.total_epochs_claimed, 3);
    assert_eq!(address_info.last_epoch_claimed, 25);
}

#[test]
fn check_claim_and_repair() {
    let mut sc = setup();
    set_repair_payment(&mut sc);
    assert!(sc.address_info(USER).is_none());

    let r = sc.claim_and_repair(&ctx(USER, 20), &vec![repair_payment(repair_token(), 1)]);
    assert_eq!(r.unwrap_err(), ClaimError::CannotRepairAddress);
    assert!(sc.address_info(USER).is_none());

    sc.claim(&ctx(USER, 20)).unwrap();
    let address_info = info(&sc);
    assert_eq!(address_info.current_streak, 1);
    assert_eq!(address_info.total_epochs_claimed, 1);
    assert_eq!(address_info.last_epoch_claimed, 20);

    let r = sc.claim_and_repair(&ctx(USER, 21), &vec![repair_payment(repair_token(), 1)]);
    assert_eq!(r.unwrap_err(), ClaimError::CannotRepairCurrentEpoch);
    let address_info = info(&sc);
    assert_eq!(address_info.current_streak, 1);
    assert_eq!(address_info.total_epochs_claimed, 1);
    assert_eq!(address_info.last_epoch_claimed, 20);

    let r = sc.claim_and_repair(&ctx(USER, 22), &vec![repair_payment(repair_token_2(), 1)]);
    assert_eq!(r.unwrap_err(), ClaimError::BadPayment);
    let r = sc.claim_and_repair(&ctx(USER, 22), &vec![repair_payment(repair_token(), 2)]);
    assert_eq!(r.unwrap_err(), ClaimError::BadPayment);
    let r = sc.claim_and_repair(&ctx(USER, 22), &Vec::new());
    assert_eq!(r.unwrap_err(), ClaimError::IncorrectNumberOfEsdtTransfers);

    let (burned, event) =
        sc.claim_and_repair(&ctx(USER, 22), &vec![repair_payment(repair_token(), 1)]).unwrap();
    let address_info = info(&sc);
    assert_eq!(burned.amount, 1);
    assert_eq!(event, ClaimEvent::NewClaimAndRepair { address: USER, info: address_info });
    assert_eq!(address_info.current_streak, 3);
    assert_eq!(address_info.total_epochs_claimed, 3);
    assert_eq!(address_info.last_epoch_claimed, 22);
    assert_eq!(address_info.best_streak, 3);

    sc.claim_and_repair(&ctx(USER, 28), &vec![repair_payment(repair_token(), 1)]).unwrap();
    let address_info = info(&sc);
    assert_eq!(address_info.current_streak, 9);
    assert_eq!(address_info.total_epochs_claimed, 9);
    assert_eq!(address_info.last_epoch_claimed, 28);
    assert_eq!(address_info.best_streak, 9);

    let r = sc.claim_and_repair(&ctx(USER, 28), &vec![repair_payment(repair_token(), 1)]);
    assert_eq!(r.unwrap_err(), ClaimError::CannotRepairCurrentEpoch);
}

#[test]
fn test_best_streak() {
    let mut sc = setup();
    set_repair_payment(&mut sc);
    sc.add_admin(&ctx(OWNER, 20), OWNER).unwrap();
    assert_eq!(sc.get_repair_streak_payment().token_identifier, repair_token());

    sc.claim(&ctx(USER, 20)).unwrap();
    let address_info = info(&sc);
    assert_eq!(address_info.current_streak, 1);
    assert_eq!(address_info.total_epochs_claimed, 1);
    assert_eq!(address_info.last_epoch_claimed, 20);
    assert_eq!(address_info.best_streak, 1);

    sc.claim(&ctx(USER, 21)).unwrap();
    let address_info = info(&sc);
    assert_eq!(address_info.current_streak, 2);
    assert_eq!(address_info.total_epochs_claimed, 2);
    assert_eq!(address_info.last_epoch_claimed, 21);
    assert_eq!(address_info.best_streak, 2);

    sc.claim(&ctx(USER, 25)).unwrap();
    let address_info = info(&sc);
    assert_eq!(address_info.current_streak, 1);
    assert_eq!(address_info.total_epochs_claimed, 3);
    assert_eq!(address_info.last_epoch_claimed, 25);
    assert_eq!(address_info.best_streak, 2);

    sc.claim(&ctx(USER, 26)).unwrap();
    let address_info = info(&sc);
    assert_eq!(address_info.current_streak, 2);
    assert_eq!(address_info.total_epochs_claimed, 4);
    assert_eq!(address_info.last_epoch_claimed, 26);
    assert_eq!(address_info.best_streak, 2);

    sc.claim(&ctx(USER, 27)).unwrap();
    let address_info = info(&sc);
    assert_eq!(address_info.current_streak, 3);
    assert_eq!(address_info.total_epochs_claimed, 5);
    assert_eq!(address_info.last_epoch_claimed, 27);
    assert_eq!(address_info.best_streak, 3);
}

#[test]
fn on_chain_claim_whitebox() {
    let mut sc = setup();
    set_repair_payment(&mut sc);
    sc.add_admin(&ctx(OWNER, 20), OWNER).unwrap();
    assert_eq!(sc.get_repair_streak_payment().token_identifier, repair_token());

    sc.claim(&ctx(USER, 20)).unwrap();
    let address_info = info(&sc);
    assert_eq!(address_info.current_streak, 1);
    assert_eq!(address_info.total_epochs_claimed, 1);
    assert_eq!(address_info.last_epoch_claimed, 20);
    assert!(!sc.can_be_repaired(USER, 20));
    assert!(!sc.can_be_repaired(USER, 21));
    assert!(sc.can_be_repaired(USER, 22));
    assert!(sc.can_be_repaired(USER, 26));
    assert!(!sc.can_be_repaired(USER, 27));
    assert!(!sc.can_be_repaired(USER, 28));

    let r = sc.claim_and_repair(&ctx(USER, 28), &vec![repair_payment(repair_token(), 1)]);
    assert_eq!(r.unwrap_err(), ClaimError::CannotRepairCurrentEpoch);

    sc.claim(&ctx(USER, 28)).unwrap();
    let address_info = info(&sc);
    assert_eq!(address_info.current_streak, 1);
    assert_eq!(address_info.total_epochs_claimed, 2);
    assert_eq!(address_info.last_epoch_claimed, 28);
    assert_eq!(address_info.best_streak, 1);

    sc.update_state(&ctx(OWNER, 28), 1, USER, SHARD, 5, 21, 7, 5).unwrap();
    assert!(!sc.can_be_repaired(USER, 28));
    let address_info = info(&sc);
    assert_eq!(address_info.current_streak, 5);
    assert_eq!(address_info.total_epochs_claimed, 7);
    assert_eq!(address_info.last_epoch_claimed, 21);
    assert_eq!(address_info.best_streak, 5);

    sc.claim_and_repair(&ctx(USER, 28), &vec![repair_payment(repair_token(), 1)]).unwrap();
    let address_info = info(&sc);
    assert_eq!(address_info.current_streak, 12);
    assert_eq!(address_info.total_epochs_claimed, 14);
    assert_eq!(address_info.last_epoch_claimed, 28);
    assert_eq!(address_info.best_streak, 12);
}
