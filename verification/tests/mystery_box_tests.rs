use mvx_contracts::common::{EsdtTokenPayment, TxContext};
use mvx_contracts::mystery_box::config::{MysteryBoxError, RewardType};
use mvx_contracts::mystery_box_v2::config::{CooldownType, RewardSetup};
use mvx_contracts::mystery_box_v2::contract::MysteryBox;

const OWNER: u64 = 1;

fn mb_token_id() -> Vec<u8> {
    b"MBTOK-abcdef".to_vec()
}

fn egld() -> Vec<u8> {
    b"EGLD".to_vec()
}

fn ctx(caller: u64, epoch: u64) -> TxContext {
    TxContext {
        caller,
        caller_is_contract: false,
        caller_shard: 0,
        contract_shard: 0,
        block_epoch: epoch,
        block_timestamp: 0,
    }
}

#[allow(clippy::too_many_arguments)]
fn setup_entry(
    reward_type: RewardType,
    token: Vec<u8>,
    value: u128,
    description: &[u8],
    percentage_chance: u64,
    cooldown_type: CooldownType,
    wins_per_cooldown: u64,
    cooldown_epochs: u64,
) -> RewardSetup {
    RewardSetup {
        reward_type,
        reward_token_id: token,
        value,
        description: description.to_vec(),
        percentage_chance,
        cooldown_type,
        wins_per_cooldown,
        cooldown_epochs,
    }
}

fn rewards_list() -> Vec<RewardSetup> {
    vec![
        setup_entry(RewardType::ExperiencePoints, egld(), 10_000, b"ExperiencePoints", 3_000, CooldownType::NoCooldown, 0, 0),
        setup_entry(RewardType::MysteryBox, mb_token_id(), 1, b"MysteryBox", 1_500, CooldownType::NoCooldown, 0, 0),
        setup_entry(RewardType::PercentValue, egld(), 1_500, b"Percent", 1_000, CooldownType::NoCooldown, 0, 0),
        setup_entry(RewardType::FixedValue, egld(), 10, b"FixedValue", 4_400, CooldownType::ResetOnCooldown, 2, 2),
        setup_entry(RewardType::CustomReward, egld(), 400, b"CustomText", 100, CooldownType::Lifetime, 1, 0),
    ]
}

/// The deployed contract, set up with the rewards list.
struct MysteryBoxSetup {
    sc: MysteryBox,
}

impl MysteryBoxSetup {
    fn new() -> Self {
        let sc = MysteryBox::init(&ctx(OWNER, 0), mb_token_id()).unwrap();
        let mut setup = MysteryBoxSetup { sc };
        setup.setup_mystery_box(0);
        setup
    }

    fn setup_mystery_box(&mut self, epoch: u64) {
        self.sc.setup_mystery_box(&ctx(OWNER, epoch), &rewards_list()).unwrap();
        let uris = vec![
            b"www.cool_nft.com/my_nft.jpg".to_vec(),
            b"www.cool_nft.com/my_nft.json".to_vec(),
        ];
        self.sc.update_mystery_box_uris(&ctx(OWNER, epoch), uris).unwrap();
    }

    fn create_mystery_box(&mut self, epoch: u64, amount: u128) -> u64 {
        let minted = self.sc.create_mystery_box(&ctx(OWNER, epoch), amount).unwrap();
        assert_eq!(minted.payment.amount, amount);
        assert_eq!(minted.payment.token_identifier, mb_token_id());
        minted.payment.token_nonce
    }

    /// Opens a box of nonce `nonce`; `draws` are the random numbers the
    /// contract draws, each from 1 to 10 000. Returns the reward's description.
    fn open_mystery_box(&mut self, epoch: u64, nonce: u64, draws: &[u64]) -> Vec<u8> {
        let payment = vec![EsdtTokenPayment::new(mb_token_id(), nonce, 1)];
        let opened = self
            .sc
            .open_mystery_box(&ctx(OWNER, epoch), &payment, &draws.to_vec())
            .unwrap();
        assert_eq!(opened.burned.token_nonce, nonce);
        assert_eq!(opened.burned.amount, 1);
        opened.reward.description
    }
}

#[test]
fn test_mystery_box_setup() {
    let setup = MysteryBoxSetup::new();
    let rates = setup.sc.get_winning_rates();
    assert_eq!(rates.len(), 5);
    assert_eq!(setup.sc.get_last_reward_id(), 5);
    assert_eq!(rates[0].reward_id, 1);
    assert_eq!(rates[4].reward_id, 5);
    assert_eq!(setup.sc.get_mystery_box_uris().len(), 2);
}

#[test]
fn test_mb_token_nonce_stacking() {
    let mut setup = MysteryBoxSetup::new();

    let first_mb_token_nonce = setup.create_mystery_box(1, 1);
    let second_mb_token_nonce = setup.create_mystery_box(1, 1);
    assert_eq!(first_mb_token_nonce, second_mb_token_nonce);

    setup.open_mystery_box(2, second_mb_token_nonce, &[100]);

    setup.setup_mystery_box(2);
    let third_mb_token_nonce = setup.create_mystery_box(2, 1);

    // Should be different, as they were with different attributes
    assert_ne!(first_mb_token_nonce, third_mb_token_nonce);

    setup.open_mystery_box(3, third_mb_token_nonce, &[100]);
}

#[test]
fn test_open_multiple_mystery_box() {
    let mut setup = MysteryBoxSetup::new();
    let nonce = setup.create_mystery_box(1, 10);

    assert_eq!(setup.open_mystery_box(3, nonce, &[100]), b"ExperiencePoints".to_vec());
    // a mystery box reward mints a box with the current rewards: the same nonce
    assert_eq!(setup.open_mystery_box(3, nonce, &[3_500]), b"MysteryBox".to_vec());

    // The same draw for 3 boxes (ResetOnCooldown) allows 2 wins per cooldown
    assert_eq!(setup.open_mystery_box(4, nonce, &[6_000]), b"FixedValue".to_vec());
    assert_eq!(setup.open_mystery_box(4, nonce, &[6_000]), b"FixedValue".to_vec());
    // Now a new prize is selected, as the initial one is on cooldown;
    // the lifetime prize is won once
    assert_eq!(setup.open_mystery_box(4, nonce, &[6_000, 9_950]), b"CustomText".to_vec());

    // The 2 epochs cooldown has passed, the ResetOnCooldown prize can be won again
    assert_eq!(setup.open_mystery_box(6, nonce, &[6_000]), b"FixedValue".to_vec());
    assert_eq!(setup.open_mystery_box(6, nonce, &[6_000]), b"FixedValue".to_vec());
    // but not a third time during the cooldown
    assert_eq!(setup.open_mystery_box(6, nonce, &[6_000, 100]), b"ExperiencePoints".to_vec());

    // The lifetime reward can't be won again, so a new prize is selected
    assert_eq!(setup.open_mystery_box(7, nonce, &[9_950, 100]), b"ExperiencePoints".to_vec());

    let fixed = setup.sc.get_reward_cooldown(4).unwrap();
    assert_eq!(fixed.remaining_epoch_wins, 0);
    assert_eq!(fixed.last_update_epoch, 6);
    let custom = setup.sc.get_reward_cooldown(5).unwrap();
    assert_eq!(custom.remaining_epoch_wins, 0);
}

#[test]
fn mystery_box_v2_open_errors() {
    let mut setup = MysteryBoxSetup::new();
    let nonce = setup.create_mystery_box(1, 2);

    let wrong_token = vec![EsdtTokenPayment::new(b"WRONG-abcdef".to_vec(), nonce, 1)];
    assert_eq!(
        setup.sc.open_mystery_box(&ctx(OWNER, 1), &wrong_token, &vec![1]).err().unwrap(),
        MysteryBoxError::BadPaymentToken
    );
    let two = vec![EsdtTokenPayment::new(mb_token_id(), nonce, 2)];
    assert_eq!(
        setup.sc.open_mystery_box(&ctx(OWNER, 1), &two, &vec![1]).err().unwrap(),
        MysteryBoxError::BadPaymentAmount
    );
    assert_eq!(
        setup.sc.open_mystery_box(&ctx(OWNER, 1), &Vec::new(), &vec![1]).err().unwrap(),
        MysteryBoxError::IncorrectNumberOfEsdtTransfers
    );
    let mut contract_caller = ctx(OWNER, 1);
    contract_caller.caller_is_contract = true;
    let one = vec![EsdtTokenPayment::new(mb_token_id(), nonce, 1)];
    assert_eq!(
        setup.sc.open_mystery_box(&contract_caller, &one, &vec![1]).err().unwrap(),
        MysteryBoxError::OnlyUserAccounts
    );
    assert_eq!(
        setup.sc.open_mystery_box(&ctx(OWNER, 1), &one, &Vec::new()).err().unwrap(),
        MysteryBoxError::DrawsExhausted
    );
    let unknown = vec![EsdtTokenPayment::new(mb_token_id(), nonce + 7, 1)];
    assert_eq!(
        setup.sc.open_mystery_box(&ctx(OWNER, 1), &unknown, &vec![1]).err().unwrap(),
        MysteryBoxError::UnknownBoxNonce
    );
}

#[test]
fn mystery_box_v2_setup_errors() {
    let mut sc = MysteryBox::init(&ctx(OWNER, 0), mb_token_id()).unwrap();
    assert_eq!(
        sc.create_mystery_box(&ctx(OWNER, 0), 1).err().unwrap(),
        MysteryBoxError::NotSetUp
    );
    assert_eq!(
        sc.setup_mystery_box(&ctx(7, 0), &rewards_list()).err().unwrap(),
        MysteryBoxError::NotAdmin
    );
    let mut short = rewards_list();
    short.pop();
    assert_eq!(
        sc.setup_mystery_box(&ctx(OWNER, 0), &short).err().unwrap(),
        MysteryBoxError::TotalPercentageNot100
    );
    let mut bad = rewards_list();
    bad[3].cooldown_epochs = 0;
    assert_eq!(
        sc.setup_mystery_box(&ctx(OWNER, 0), &bad).err().unwrap(),
        MysteryBoxError::InvalidResettableCooldown
    );
    let mut bad = rewards_list();
    bad[4].wins_per_cooldown = 0;
    bad[4].cooldown_epochs = 3;
    assert_eq!(
        sc.setup_mystery_box(&ctx(OWNER, 0), &bad).err().unwrap(),
        MysteryBoxError::ZeroWinsPerCooldown
    );
    let mut bad = rewards_list();
    bad[1].reward_token_id = b"OTHER-abcdef".to_vec();
    assert_eq!(
        sc.setup_mystery_box(&ctx(OWNER, 0), &bad).err().unwrap(),
        MysteryBoxError::MysteryBoxTokenMismatch
    );
    let mut bad = rewards_list();
    bad[4].description = Vec::new();
    assert_eq!(
        sc.setup_mystery_box(&ctx(OWNER, 0), &bad).err().unwrap(),
        MysteryBoxError::CustomRewardWithoutDescription
    );
    // nothing was set up by the failed calls
    assert_eq!(sc.get_last_reward_id(), 0);
    assert!(MysteryBox::init(&ctx(OWNER, 0), b"bad".to_vec()).is_err());
}
