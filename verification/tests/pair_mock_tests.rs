use mvx_contracts::big_uint::BigUint;
use mvx_contracts::common::{EsdtTokenPayment, TxContext};
use mvx_contracts::pair_mock::{PairError, PairMock};

fn ctx(caller: u64) -> TxContext {
    TxContext {
        caller,
        caller_is_contract: false,
        caller_shard: 0,
        contract_shard: 0,
        block_epoch: 0,
        block_timestamp: 0,
    }
}

/// The value of an amount, which the tests keep small.
fn amount(b: &BigUint) -> u128 {
    b.limbs().iter().rev().fold(0u128, |acc, l| acc * (1u128 << 32) + *l as u128)
}

fn pair() -> PairMock {
    PairMock::init(b"FIRST-123456".to_vec(), b"SECOND-123456".to_vec())
}

#[test]
fn pair_swaps_first_for_twice_the_second() {
    let p = pair();
    let payments = vec![EsdtTokenPayment::new(b"FIRST-123456".to_vec(), 0, 21)];
    let (out, transfer) = p
        .swap_tokens_fixed_input(&ctx(5), &payments, &b"SECOND-123456".to_vec(), 0)
        .unwrap();
    assert_eq!(out.token_identifier, b"SECOND-123456".to_vec());
    assert_eq!(out.token_nonce, 0);
    assert_eq!(amount(&out.amount), 42);
    assert_eq!(transfer.to, 5);
    assert_eq!(amount(&transfer.payment.amount), 42);
}

#[test]
fn pair_swaps_other_for_half_the_first() {
    let p = pair();
    let payments = vec![EsdtTokenPayment::new(b"SECOND-123456".to_vec(), 0, 21)];
    let (out, transfer) = p
        .swap_tokens_fixed_input(&ctx(5), &payments, &b"FIRST-123456".to_vec(), 0)
        .unwrap();
    assert_eq!(out.token_identifier, b"FIRST-123456".to_vec());
    assert_eq!(amount(&out.amount), 10);
    assert_eq!(transfer.payment.token_identifier, b"FIRST-123456".to_vec());
}

#[test]
fn pair_needs_one_payment() {
    let p = pair();
    assert_eq!(
        p.swap_tokens_fixed_input(&ctx(5), &Vec::new(), &b"FIRST-123456".to_vec(), 0)
            .err().unwrap(),
        PairError::IncorrectNumberOfEsdtTransfers
    );
}

#[test]
fn pair_doubles_any_amount() {
    let p = pair();
    let big = vec![EsdtTokenPayment::new(b"FIRST-123456".to_vec(), 0, u128::MAX)];
    let (out, _) = p
        .swap_tokens_fixed_input(&ctx(5), &big, &b"SECOND-123456".to_vec(), 0)
        .unwrap();
    // 2 * (2^128 - 1) = 2^129 - 2: limbs 0xffff_fffe, three of 0xffff_ffff, then 1
    let limbs = out.amount.limbs();
    assert_eq!(&limbs[..5], &[0xffff_fffe, 0xffff_ffff, 0xffff_ffff, 0xffff_ffff, 1]);
    assert!(limbs[5..].iter().all(|l| *l == 0));
}
