//! Values shared by all contracts: addresses, the transaction context,
//! payments, byte comparison, token identifier validation and the
//! insertion-ordered set used for storage sets.
use vstd::prelude::*;
use crate::big_uint::BigUint;

verus! {

/// An account, standing for a 32-byte MultiversX address: an integer by
/// which an account is found again.
pub type Address = u64;

/// What the blockchain tells an endpoint about the transaction that calls it.
#[derive(Clone, Copy, Debug)]
pub struct TxContext {
    pub caller: Address,
    /// Whether the caller is a smart contract account.
    pub caller_is_contract: bool,
    /// The shard of the caller.
    pub caller_shard: u32,
    /// The shard of the contract itself.
    pub contract_shard: u32,
    pub block_epoch: u64,
    pub block_timestamp: u64,
}

/// A fungible or semi-fungible token transfer.
#[derive(Clone, Debug)]
pub struct EsdtTokenPayment {
    pub token_identifier: Vec<u8>,
    pub token_nonce: u64,
    pub amount: u128,
}

/// A payment as plain values.
pub ghost struct PaymentView {
    pub token_identifier: Seq<u8>,
    pub token_nonce: u64,
    pub amount: u128,
}

impl View for EsdtTokenPayment {
    type V = PaymentView;

    open spec fn view(&self) -> PaymentView {
        PaymentView {
            token_identifier: self.token_identifier@,
            token_nonce: self.token_nonce,
            amount: self.amount,
        }
    }
}

impl EsdtTokenPayment {
    pub fn new(token_identifier: Vec<u8>, token_nonce: u64, amount: u128) -> (p: Self)
        ensures
            p.token_identifier@ == token_identifier@,
            p.token_nonce == token_nonce,
            p.amount == amount,
    {
        EsdtTokenPayment { token_identifier, token_nonce, amount }
    }

    /// A copy of the payment.
    pub fn duplicate(&self) -> (p: Self)
        ensures
            p@ == self@,
    {
        EsdtTokenPayment {
            token_identifier: self.token_identifier.clone(),
            token_nonce: self.token_nonce,
            amount: self.amount,
        }
    }
}

/// A payment the contract sends to an account.
#[derive(Clone, Debug)]
pub struct Transfer {
    pub to: Address,
    pub payment: EsdtTokenPayment,
}

/// A transfer as plain values.
pub ghost struct TransferView {
    pub to: Address,
    pub payment: PaymentView,
}

impl View for Transfer {
    type V = TransferView;

    open spec fn view(&self) -> TransferView {
        TransferView { to: self.to, payment: self.payment@ }
    }
}

/// The transfers as plain values.
pub open spec fn transfers_view(v: Seq<Transfer>) -> Seq<TransferView> {
    v.map_values(|t: Transfer| t@)
}

/// A transfer of `amount` of token `token` with nonce `nonce` to `to`.
pub open spec fn transfer_of(to: Address, token: Seq<u8>, nonce: u64, amount: u128) -> TransferView {
    TransferView {
        to,
        payment: PaymentView { token_identifier: token, token_nonce: nonce, amount },
    }
}

/// A payment whose amount has no upper bound: what arithmetic on amounts
/// produces.
#[derive(Clone, Debug)]
pub struct BigPayment {
    pub token_identifier: Vec<u8>,
    pub token_nonce: u64,
    pub amount: BigUint,
}

/// A payment of any amount as plain values.
pub ghost struct BigPaymentView {
    pub token_identifier: Seq<u8>,
    pub token_nonce: u64,
    pub amount: nat,
}

impl View for BigPayment {
    type V = BigPaymentView;

    open spec fn view(&self) -> BigPaymentView {
        BigPaymentView {
            token_identifier: self.token_identifier@,
            token_nonce: self.token_nonce,
            amount: self.amount@,
        }
    }
}

/// A payment of any amount that the contract sends to an account.
#[derive(Clone, Debug)]
pub struct Payout {
    pub to: Address,
    pub payment: BigPayment,
}

/// A payout as plain values.
pub ghost struct PayoutView {
    pub to: Address,
    pub payment: BigPaymentView,
}

impl View for Payout {
    type V = PayoutView;

    open spec fn view(&self) -> PayoutView {
        PayoutView { to: self.to, payment: self.payment@ }
    }
}

/// The payouts as plain values.
pub open spec fn payouts_view(v: Seq<Payout>) -> Seq<PayoutView> {
    v.map_values(|t: Payout| t@)
}

/// A payout of `amount` of token `token` with nonce `nonce` to `to`.
pub open spec fn payout_of(to: Address, token: Seq<u8>, nonce: u64, amount: nat) -> PayoutView {
    PayoutView {
        to,
        payment: BigPaymentView { token_identifier: token, token_nonce: nonce, amount },
    }
}

/// A copy of a vector of plain values.
pub fn copy_vec<T: Copy>(v: &Vec<T>) -> (r: Vec<T>)
    ensures
        r@ == v@,
{
    let mut r: Vec<T> = Vec::new();
    let mut i: usize = 0;
    while i < v.len()
        invariant
            i <= v.len(),
            r@ == v@.subrange(0, i as int),
        decreases v.len() - i,
    {
        r.push(v[i]);
        i = i + 1;
    }
    assert(r@ =~= v@);
    r
}

/// Byte-wise equality of two buffers.
pub fn bytes_eq(a: &Vec<u8>, b: &Vec<u8>) -> (r: bool)
    ensures
        r == (a@ == b@),
{
    if a.len() != b.len() {
        return false;
    }
    let mut i: usize = 0;
    while i < a.len()
        invariant
            a.len() == b.len(),
            i <= a.len(),
            forall|j: int| 0 <= j < i ==> a@[j] == b@[j],
        decreases a.len() - i,
    {
        if a[i] != b[i] {
            return false;
        }
        i = i + 1;
    }
    assert(a@ =~= b@);
    true
}

/// Equality of two payments: same token, same nonce, same amount.
pub fn payment_eq(a: &EsdtTokenPayment, b: &EsdtTokenPayment) -> (r: bool)
    ensures
        r == (a@ == b@),
{
    bytes_eq(&a.token_identifier, &b.token_identifier) && a.token_nonce == b.token_nonce
        && a.amount == b.amount
}

/// The name that stands for EGLD, the native coin, where a token
/// identifier may also name an ESDT token: "EGLD".
pub open spec fn egld_name() -> Seq<u8> {
    seq![69u8, 71u8, 76u8, 68u8]
}

/// The name that stands for EGLD where a token identifier may also name an
/// ESDT token.
pub fn egld_token_name() -> (v: Vec<u8>)
    ensures
        v@ == egld_name(),
{
    let mut v: Vec<u8> = Vec::new();
    v.push(69u8);
    v.push(71u8);
    v.push(76u8);
    v.push(68u8);
    assert(v@ =~= egld_name());
    v
}

/// Whether the token identifier names an ESDT token rather than EGLD.
pub fn is_esdt(token_identifier: &Vec<u8>) -> (b: bool)
    ensures
        b == (token_identifier@ != egld_name()),
{
    let egld = egld_token_name();
    !bytes_eq(token_identifier, &egld)
}

pub open spec fn is_upper_or_digit(c: u8) -> bool {
    (65 <= c <= 90) || (48 <= c <= 57)
}

pub open spec fn is_lower_or_digit(c: u8) -> bool {
    (97 <= c <= 122) || (48 <= c <= 57)
}

/// An ESDT token identifier: a ticker of 3 to 10 upper-case letters or
/// digits, a dash, and 6 lower-case letters or digits.
pub open spec fn valid_esdt_identifier(id: Seq<u8>) -> bool {
    let n = id.len();
    &&& 10 <= n <= 17
    &&& forall|i: int| 0 <= i < n - 7 ==> is_upper_or_digit(#[trigger] id[i])
    &&& id[n - 7] == 45
    &&& forall|i: int| n - 6 <= i < n ==> is_lower_or_digit(#[trigger] id[i])
}

/// Checks the shape of an ESDT token identifier, as the VM does for
/// `TokenIdentifier::is_valid_esdt_identifier`.
pub fn is_valid_esdt_identifier(id: &Vec<u8>) -> (r: bool)
    ensures
        r == valid_esdt_identifier(id@),
{
    let n = id.len();
    if n < 10 || n > 17 {
        return false;
    }
    let ticker_len = n - 7;
    let mut i: usize = 0;
    while i < ticker_len
        invariant
            n == id.len(),
            10 <= n <= 17,
            ticker_len == n - 7,
            i <= ticker_len,
            forall|j: int| 0 <= j < i ==> is_upper_or_digit(#[trigger] id@[j]),
        decreases ticker_len - i,
    {
        let c = id[i];
        if !((65 <= c && c <= 90) || (48 <= c && c <= 57)) {
            return false;
        }
        i = i + 1;
    }
    if id[ticker_len] != 45 {
        return false;
    }
    let mut k: usize = n - 6;
    while k < n
        invariant
            n == id.len(),
            10 <= n <= 17,
            n - 6 <= k <= n,
            forall|j: int| n - 6 <= j < k ==> is_lower_or_digit(#[trigger] id@[j]),
        decreases n - k,
    {
        let c = id[k];
        if !((97 <= c && c <= 122) || (48 <= c && c <= 57)) {
            return false;
        }
        k = k + 1;
    }
    true
}

} // verus!
