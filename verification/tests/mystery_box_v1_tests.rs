use mvx_contracts::common::{EsdtTokenPayment, TxContext};
use mvx_contracts::mystery_box::config::{MysteryBoxError, Reward, RewardType};
use mvx_contracts::mystery_box::contract::MysteryBox;

const OWNER: u64 = 1;
const USER: u64 = 2;

fn token() -> Vec<u8> {
    b"TTO-281def".to_vec()
}

fn ctx(caller: u64, epoch: u64) -> TxContext {
    TxContext {
        caller,
        caller_is_contract: false,
        caller_shard: 0,
        contract_shard: 0,
        block_epoch: epoch,
        block_timestamp: 0,
    }
}

fn rewards() -> Vec<Reward> {
    vec![
        Reward::new(RewardType::ExperiencePoints, b"EGLD".to_vec(), 10_000, b"ExperiencePoints".to_vec(), 5_000, 0),
        Reward::new(RewardType::MysteryBox, token(), 1, b"MysteryBox".to_vec(), 2_000, 0),
        Reward::new(RewardType::FixedValue, b"EGLD".to_vec(), 10, b"FixedValue".to_vec(), 3_000, 2),
    ]
}

#[test]
fn mystery_box_blackbox_test_test_deploy() {
    let sc = MysteryBox::init(&ctx(OWNER, 0), token()).unwrap();
    assert_eq!(sc.get_mystery_box_token_identifier(), token());
    assert!(sc.is_admin(OWNER));
}

#[test]
fn mystery_box_v1_deploy_fail() {
    assert_eq!(
        MysteryBox::init(&ctx(OWNER, 0), b"WRONG_TOKEN".to_vec()).err().unwrap(),
        MysteryBoxError::InvalidTokenId
    );
}

#[test]
fn mystery_box_v1_admins() {
    let mut sc = MysteryBox::init(&ctx(OWNER, 0), token()).unwrap();
    assert_eq!(sc.add_admin(&ctx(USER, 0), USER).err().unwrap(), MysteryBoxError::NotOwner);
    sc.add_admin(&ctx(OWNER, 0), USER).unwrap();
    assert!(sc.is_admin(USER));
    assert_eq!(sc.get_admins(), vec![OWNER, USER]);
    sc.remove_admin(&ctx(OWNER, 0), USER).unwrap();
    assert!(!sc.is_admin(USER));
}

#[test]
fn mystery_box_v1_create_without_setup() {
    let mut sc = MysteryBox::init(&ctx(OWNER, 0), token()).unwrap();
    assert_eq!(sc.create_mystery_box(&ctx(OWNER, 0), 1).err().unwrap(), MysteryBoxError::NotSetUp);
    assert_eq!(sc.create_mystery_box(&ctx(USER, 0), 1).err().unwrap(), MysteryBoxError::NotAdmin);
}

#[test]
fn mystery_box_v1_setup_percentage() {
    let mut sc = MysteryBox::init(&ctx(OWNER, 0), token()).unwrap();
    let mut list = rewards();
    list.pop();
    assert_eq!(
        sc.setup_mystery_box(&ctx(OWNER, 0), list).err().unwrap(),
        MysteryBoxError::TotalPercentageNot100
    );
    sc.setup_mystery_box(&ctx(OWNER, 0), rewards()).unwrap();
    assert_eq!(sc.get_winning_rates().len(), 3);
}

#[test]
fn mystery_box_v1_global_cooldown() {
    let mut sc = MysteryBox::init(&ctx(OWNER, 0), token()).unwrap();
    sc.setup_mystery_box(&ctx(OWNER, 0), rewards()).unwrap();
    let minted = sc.create_mystery_box(&ctx(OWNER, 1), 5).unwrap();
    assert_eq!(minted.payment.amount, 5);
    let again = sc.create_mystery_box(&ctx(OWNER, 1), 1).unwrap();
    assert_eq!(again.payment.token_nonce, minted.payment.token_nonce);

    let pay = vec![EsdtTokenPayment::new(token(), minted.payment.token_nonce, 1)];
    // the fixed value wins and holds its kind back for two epochs
    let opened = sc.open_mystery_box(&ctx(USER, 10), &pay, &vec![8_000]).unwrap();
    assert_eq!(opened.reward.reward_type, RewardType::FixedValue);
    assert_eq!(opened.burned.token_nonce, minted.payment.token_nonce);
    assert_eq!(opened.burned.amount, 1);
    assert_eq!(sc.get_global_cooldown_epoch(RewardType::FixedValue), 12);
    let opened = sc
        .open_mystery_box(&ctx(USER, 11), &pay, &vec![8_000, 100])
        .unwrap();
    assert_eq!(opened.reward.reward_type, RewardType::ExperiencePoints);
    let opened = sc.open_mystery_box(&ctx(USER, 12), &pay, &vec![8_000]).unwrap();
    assert_eq!(opened.reward.reward_type, RewardType::FixedValue);

    // a mystery box reward sends a new box holding the current rewards
    let opened = sc.open_mystery_box(&ctx(USER, 12), &pay, &vec![6_000]).unwrap();
    assert_eq!(opened.reward.reward_type, RewardType::MysteryBox);
    let new_box = opened.new_box.unwrap();
    assert_eq!(new_box.payment.token_nonce, minted.payment.token_nonce);
    assert_eq!(new_box.payment.amount, 1);
}
