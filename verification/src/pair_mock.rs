//! A stand-in for a trading pair: the first token swaps for twice as much
//! of the second, anything else for half as much of the first.
use vstd::prelude::*;
use crate::big_uint::BigUint;
use crate::common::{bytes_eq, BigPayment, BigPaymentView, EsdtTokenPayment, PaymentView, Payout, PayoutView, TxContext};

verus! {

/// The reasons the pair refuses a swap.
#[derive(Clone, Copy, Debug, PartialEq, Eq, Structural)]
pub enum PairError {
    /// "incorrect number of ESDT transfers"
    IncorrectNumberOfEsdtTransfers,
}

/// The pair's storage: its two tokens.
pub struct PairMock {
    pub first_token_id: Vec<u8>,
    pub second_token_id: Vec<u8>,
}

/// What a swap of `payment` pays out: twice the amount of the second token
/// for the first token, and half the amount, rounded down, of the first
/// token for any other.
pub open spec fn swap_output(first: Seq<u8>, second: Seq<u8>, payment: PaymentView) -> BigPaymentView {
    if payment.token_identifier == first {
        BigPaymentView { token_identifier: second, token_nonce: 0, amount: (payment.amount * 2) as nat }
    } else {
        BigPaymentView { token_identifier: first, token_nonce: 0, amount: (payment.amount / 2) as nat }
    }
}

impl PairMock {
    /// Deploys the pair for its two tokens.
    pub fn init(first_token_id: Vec<u8>, second_token_id: Vec<u8>) -> (p: PairMock)
        ensures
            p.first_token_id@ == first_token_id@,
            p.second_token_id@ == second_token_id@,
    {
        PairMock { first_token_id, second_token_id }
    }

    /// Swaps the single payment of the call; the wanted token and the least
    /// amount wanted are not looked at. Returns what is paid out and the
    /// payout of it to the caller.
    pub fn swap_tokens_fixed_input(
        &self,
        ctx: &TxContext,
        payments: &Vec<EsdtTokenPayment>,
        token_out: &Vec<u8>,
        amount_out_min: u128,
    ) -> (r: Result<(BigPayment, Payout), PairError>)
        ensures
            payments@.len() != 1 ==> r == Err::<(BigPayment, Payout), PairError>(
                PairError::IncorrectNumberOfEsdtTransfers,
            ),
            payments@.len() == 1 ==> r is Ok && r->Ok_0.0@ == swap_output(
                self.first_token_id@,
                self.second_token_id@,
                payments@[0]@,
            ) && r->Ok_0.1@ == (PayoutView {
                to: ctx.caller,
                payment: swap_output(self.first_token_id@, self.second_token_id@, payments@[0]@),
            }),
    {
        if payments.len() != 1 {
            return Err(PairError::IncorrectNumberOfEsdtTransfers);
        }
        let payment = &payments[0];
        let amount = BigUint::from_u128(payment.amount);
        let output = if bytes_eq(&payment.token_identifier, &self.first_token_id) {
            BigPayment { token_identifier: self.second_token_id.clone(), token_nonce: 0, amount: amount.mul_u64(2) }
        } else {
            BigPayment { token_identifier: self.first_token_id.clone(), token_nonce: 0, amount: amount.div_u32(2) }
        };
        let paid = BigPayment {
            token_identifier: crate::common::copy_vec(&output.token_identifier),
            token_nonce: 0,
            amount: output.amount.duplicate(),
        };
        Ok((output, Payout { to: ctx.caller, payment: paid }))
    }
}

} // verus!
