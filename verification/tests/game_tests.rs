use mvx_contracts::big_uint::BigUint;
use mvx_contracts::common::{EsdtTokenPayment, Payout, TxContext};
use mvx_contracts::game::contract::MvxGameSc;
use mvx_contracts::game::types::{GameError, Status};

const BALANCE: u128 = 100_000_000;
const STARTING_FEE: u128 = 20;
const OWNER: u64 = 1;
const USER1: u64 = 11;
const USER2: u64 = 12;
const USER3: u64 = 13;
const USER4: u64 = 14;

fn token_game() -> Vec<u8> {
    b"GAME-123456".to_vec()
}

fn ctx(caller: u64, timestamp: u64) -> TxContext {
    TxContext {
        caller,
        caller_is_contract: false,
        caller_shard: 0,
        contract_shard: 0,
        block_epoch: 0,
        block_timestamp: timestamp,
    }
}

fn pay(amount: u128) -> Vec<EsdtTokenPayment> {
    vec![EsdtTokenPayment::new(token_game(), 0, amount)]
}

/// The value of an amount, which the tests keep small.
fn amount(b: &BigUint) -> u128 {
    b.limbs().iter().rev().fold(0u128, |acc, l| acc * (1u128 << 32) + *l as u128)
}

fn deploy() -> MvxGameSc {
    MvxGameSc::init(&ctx(OWNER, 0), Some(true), Some(STARTING_FEE), Some(token_game())).unwrap()
}

/// The balance of `who` after the transfers, from a starting balance, minus
/// what `who` paid in.
fn balance_after(who: u64, paid: u128, transfers: &[Payout]) -> u128 {
    let received: u128 = transfers
        .iter()
        .filter(|t| t.to == who)
        .map(|t| amount(&t.payment.amount))
        .sum();
    BALANCE - paid + received
}

#[test]
fn game_sc_deploy_test() {
    let sc = deploy();
    assert!(sc.get_enabled());
    assert_eq!(sc.get_game_start_fee(), STARTING_FEE);
    assert_eq!(sc.get_token_id(), token_game());
    assert_eq!(sc.get_last_game_id(), 0);
}

#[test]
fn game_sc_simple_game_flow() {
    let waiting_time = 100u64;
    let wager = 100u128;
    let mut sc = deploy();
    assert_eq!(sc.get_last_game_id(), 0);

    let id = sc
        .create_game(&ctx(OWNER, 0), &pay(STARTING_FEE), waiting_time, 1, 4, wager)
        .unwrap();
    assert_eq!(id, 1);
    assert_eq!(sc.get_last_game_id(), 1);

    sc.join_game(&ctx(USER1, 0), &pay(wager), 1).unwrap();
    assert_eq!(sc.get_game_settings(1).unwrap().status, Status::Valid);

    sc.join_game(&ctx(USER2, 0), &pay(wager), 1).unwrap();
    let players = sc.get_players(1);
    assert!(players.contains(&USER1));
    assert!(players.contains(&USER2));

    let games_per_user1 = sc.get_games_per_user(USER1);
    let games_per_user2 = sc.get_games_per_user(USER2);
    assert!(games_per_user1.contains(&1u64) && games_per_user2.contains(&1u64));
}

#[test]
fn game_sc_complex_flow() {
    let waiting_time = 100u64;
    let wager = 100u128;
    let mut sc = deploy();

    let id = sc
        .create_game(&ctx(OWNER, 1), &pay(STARTING_FEE), waiting_time, 2, 4, wager)
        .unwrap();
    assert_eq!(id, 1);

    sc.join_game(&ctx(USER1, 1), &pay(wager), 1).unwrap();
    assert_eq!(sc.get_game_settings(1).unwrap().status, Status::Invalid);

    assert_eq!(
        sc.claim_back_wager(&ctx(USER1, 1), 1).err().unwrap(),
        GameError::WaitingTimeNotOver
    );

    assert_eq!(
        sc.join_game(&ctx(USER2, 1), &pay(5), 1).err().unwrap(),
        GameError::WrongAmountPaid
    );
    sc.join_game(&ctx(USER2, 1), &pay(wager), 1).unwrap();
    assert_eq!(
        sc.join_game(&ctx(USER2, 1), &pay(wager), 1).err().unwrap(),
        GameError::UserAlreadyJoined
    );
    assert_eq!(sc.get_game_settings(1).unwrap().status, Status::Valid);

    sc.join_game(&ctx(USER3, 1), &pay(wager), 1).unwrap();

    assert_eq!(
        sc.join_game(&ctx(USER4, 102), &pay(wager), 1).err().unwrap(),
        GameError::WaitingTimePassed
    );
    assert_eq!(
        sc.claim_back_wager(&ctx(USER4, 102), 1).err().unwrap(),
        GameError::CallerNotJoined
    );
    assert_eq!(
        sc.claim_back_wager(&ctx(USER1, 102), 1).err().unwrap(),
        GameError::GameNotInvalid
    );

    // the contract holds the fee, three wagers and a top-up
    let contract_balance = STARTING_FEE + 3 * wager + 10_000;
    assert_eq!(contract_balance, 10_320);

    sc.set_admin(&ctx(OWNER, 102), OWNER).unwrap();
    let winners = vec![(USER1, 8000u64), (USER2, 2000u64)];
    let transfers = sc.send_reward(&ctx(OWNER, 102), 1, Some(winners)).unwrap();
    assert_eq!(transfers.len(), 2);
    assert_eq!(transfers[0].to, USER1);
    assert_eq!(amount(&transfers[0].payment.amount), 240);
    assert_eq!(transfers[1].to, USER2);
    assert_eq!(amount(&transfers[1].payment.amount), 60);
    assert_eq!(balance_after(USER1, wager, &transfers), 100000140);
    assert_eq!(balance_after(USER2, wager, &transfers), 99999960);
}

#[test]
fn invalid_game_test() {
    let waiting_time = 100u64;
    let wager = 100u128;
    let mut sc = deploy();

    let id = sc
        .create_game(&ctx(OWNER, 1), &pay(STARTING_FEE), waiting_time, 3, 5, wager)
        .unwrap();
    assert_eq!(id, 1);
    sc.join_game(&ctx(USER1, 1), &pay(wager), 1).unwrap();
    sc.join_game(&ctx(USER2, 1), &pay(wager), 1).unwrap();
    assert_eq!(sc.get_game_settings(1).unwrap().status, Status::Invalid);

    sc.set_admin(&ctx(OWNER, 102), OWNER).unwrap();
    let transfers = sc.send_reward(&ctx(OWNER, 102), 1, None).unwrap();

    assert_eq!(balance_after(USER1, wager, &transfers), 100000000);
    assert_eq!(balance_after(USER2, wager, &transfers), 100000000);
    assert_eq!(balance_after(OWNER, STARTING_FEE, &transfers), 100000000);
    // the game is closed
    assert!(sc.get_game_settings(1).is_none());
}

#[test]
fn game_requires_start_fee_and_token() {
    assert_eq!(
        MvxGameSc::init(&ctx(OWNER, 0), Some(true), None, Some(token_game())).err().unwrap(),
        GameError::GameStartFeeNotSet
    );
    assert_eq!(
        MvxGameSc::init(&ctx(OWNER, 0), Some(true), Some(1), None).err().unwrap(),
        GameError::FeeTokenIdNotSet
    );
    let sc = MvxGameSc::init(&ctx(OWNER, 0), None, Some(1), Some(token_game())).unwrap();
    assert!(!sc.get_enabled());
}

#[test]
fn game_create_errors() {
    let mut sc = deploy();
    let o = ctx(OWNER, 0);
    assert_eq!(
        sc.create_game(&o, &pay(STARTING_FEE), 100, 1, 4, 0).err().unwrap(),
        GameError::WagerZero
    );
    assert_eq!(
        sc.create_game(&o, &pay(STARTING_FEE), 0, 1, 4, 10).err().unwrap(),
        GameError::WaitingTimeZero
    );
    assert_eq!(
        sc.create_game(&o, &pay(STARTING_FEE + 1), 100, 1, 4, 10).err().unwrap(),
        GameError::WrongStartPayment
    );
    let other = vec![EsdtTokenPayment::new(b"OTHER-123456".to_vec(), 0, STARTING_FEE)];
    assert_eq!(
        sc.create_game(&o, &other, 100, 1, 4, 10).err().unwrap(),
        GameError::WrongTokenId
    );
    assert_eq!(
        sc.create_game(&o, &Vec::new(), 100, 1, 4, 10).err().unwrap(),
        GameError::IncorrectNumberOfEsdtTransfers
    );
    let nft = vec![EsdtTokenPayment::new(token_game(), 3, STARTING_FEE)];
    assert_eq!(
        sc.create_game(&o, &nft, 100, 1, 4, 10).err().unwrap(),
        GameError::FungibleTokenExpected
    );
    assert_eq!(
        sc.create_game(&o, &pay(STARTING_FEE), 100, 0, 4, 10).err().unwrap(),
        GameError::NumberOfPlayersZero
    );
    // the bounds may come in either order
    let id = sc.create_game(&o, &pay(STARTING_FEE), 100, 4, 1, 10).unwrap();
    let settings = sc.get_game_settings(id).unwrap();
    assert_eq!(settings.number_of_players_min, 1);
    assert_eq!(settings.number_of_players_max, 4);
    assert_eq!(settings.time_limit, 100);
    assert_eq!(sc.get_game_id_by_settings(settings), id);
}

#[test]
fn game_join_errors_and_claim_back() {
    let mut sc = deploy();
    let id = sc
        .create_game(&ctx(OWNER, 0), &pay(STARTING_FEE), 10, 2, 2, 50)
        .unwrap();
    assert_eq!(
        sc.join_game(&ctx(USER1, 0), &pay(50), 7).err().unwrap(),
        GameError::NoSettingsForGameId
    );
    let other = vec![EsdtTokenPayment::new(b"OTHER-123456".to_vec(), 0, 50)];
    assert_eq!(
        sc.join_game(&ctx(USER1, 0), &other, id).err().unwrap(),
        GameError::WrongTokenSent
    );
    sc.join_game(&ctx(USER1, 0), &pay(50), id).unwrap();
    sc.join_game(&ctx(USER2, 0), &pay(50), id).unwrap();
    assert_eq!(
        sc.join_game(&ctx(USER3, 0), &pay(50), id).err().unwrap(),
        GameError::MaxPlayersReached
    );

    // a game that stays invalid lets its players claim back the wager
    let id2 = sc
        .create_game(&ctx(OWNER, 0), &pay(STARTING_FEE), 10, 3, 3, 50)
        .unwrap();
    sc.join_game(&ctx(USER1, 0), &pay(50), id2).unwrap();
    let t = sc.claim_back_wager(&ctx(USER1, 11), id2).unwrap();
    assert_eq!(t.to, USER1);
    assert_eq!(t.payment.amount, 50);
    assert_eq!(t.payment.token_identifier, token_game());
    assert!(!sc.get_players(id2).contains(&USER1));
    assert!(!sc.get_games_per_user(USER1).contains(&id2));
    assert_eq!(
        sc.claim_back_wager(&ctx(USER1, 11), id2).err().unwrap(),
        GameError::CallerNotJoined
    );
}

#[test]
fn game_admin_and_maintenance() {
    let mut sc = deploy();
    assert_eq!(sc.set_admin(&ctx(USER1, 0), USER1).err().unwrap(), GameError::NotOwner);
    sc.set_admin(&ctx(OWNER, 0), USER1).unwrap();
    assert!(sc.is_user_admin(USER1));
    sc.remove_admin(&ctx(OWNER, 0), USER1).unwrap();
    assert!(!sc.is_user_admin(USER1));

    let id = sc
        .create_game(&ctx(OWNER, 0), &pay(STARTING_FEE), 10, 1, 2, 50)
        .unwrap();
    assert_eq!(
        sc.send_reward(&ctx(USER1, 20), id, None).err().unwrap(),
        GameError::NotAdmin
    );
    sc.set_admin(&ctx(OWNER, 0), OWNER).unwrap();
    assert_eq!(
        sc.send_reward(&ctx(OWNER, 5), id, None).err().unwrap(),
        GameError::WaitingTimeNotOver
    );

    sc.disable_sc(&ctx(OWNER, 0)).unwrap();
    assert_eq!(
        sc.create_game(&ctx(OWNER, 0), &pay(STARTING_FEE), 10, 1, 2, 50).err().unwrap(),
        GameError::Maintenance
    );
    sc.enable_sc(&ctx(OWNER, 0)).unwrap();
    sc.set_game_start_fee(&ctx(OWNER, 0), 7).unwrap();
    assert_eq!(sc.get_game_start_fee(), 7);
    sc.set_token_id(&ctx(OWNER, 0), b"NEW-123456".to_vec()).unwrap();
    assert_eq!(sc.get_token_id(), b"NEW-123456".to_vec());
}

#[test]
fn game_valid_draw_refunds_every_player() {
    let mut sc = deploy();
    let id = sc
        .create_game(&ctx(OWNER, 0), &pay(STARTING_FEE), 10, 1, 3, 40)
        .unwrap();
    sc.join_game(&ctx(USER1, 0), &pay(40), id).unwrap();
    sc.join_game(&ctx(USER2, 0), &pay(40), id).unwrap();
    sc.set_admin(&ctx(OWNER, 0), OWNER).unwrap();
    let transfers = sc.send_reward(&ctx(OWNER, 11), id, None).unwrap();
    assert_eq!(transfers.len(), 2);
    assert!(transfers.iter().all(|t| amount(&t.payment.amount) == 40));
    // a valid game stays open
    assert!(sc.get_game_settings(id).is_some());
}

#[test]
fn game_rewards_past_128_bits() {
    let big_wager = u128::MAX / 2;
    let mut sc = MvxGameSc::init(&ctx(OWNER, 0), Some(true), Some(STARTING_FEE), Some(token_game())).unwrap();
    let id = sc.create_game(&ctx(OWNER, 0), &pay(STARTING_FEE), 10, 1, 4, big_wager).unwrap();
    sc.join_game(&ctx(USER1, 0), &pay(big_wager), id).unwrap();
    sc.join_game(&ctx(USER2, 0), &pay(big_wager), id).unwrap();
    sc.join_game(&ctx(USER3, 0), &pay(big_wager), id).unwrap();
    sc.set_admin(&ctx(OWNER, 0), OWNER).unwrap();
    // the whole pot, three wagers, goes to one winner: more than 128 bits
    let payouts = sc.send_reward(&ctx(OWNER, 11), id, Some(vec![(USER1, 10_000u64)])).unwrap();
    let limbs = payouts[0].payment.amount.limbs();
    let mut expected = BigUint::from_u128(big_wager).mul_u64(3).limbs();
    while expected.last() == Some(&0) {
        expected.pop();
    }
    let mut got = limbs.clone();
    while got.last() == Some(&0) {
        got.pop();
    }
    assert_eq!(got, expected);
    assert!(got.len() > 4);
}
