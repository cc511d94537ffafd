use vstd::prelude::*;

use crate::encoding::{append_decimal, be_digits, decimal_of, escrow_subaccount};
use crate::types::Party;

verus! {

/// A request to the ledger to pull a deposit from the buyer into the escrow's subaccount.
#[derive(Debug)]
pub struct PullTransfer {
    pub from: Party,
    pub to_subaccount: Vec<u8>,
    pub amount: u64,
    pub memo: String,
}

/// A request to the ledger to push a milestone payment from the escrow's subaccount to the seller.
#[derive(Debug)]
pub struct PushTransfer {
    pub from_subaccount: Vec<u8>,
    pub to: Party,
    pub amount: u64,
    pub memo: String,
}

pub open spec fn deposit_memo_text(listing_id: u64) -> Seq<char> {
    "Escrow deposit for listing "@ + decimal_of(listing_id as nat)
}

pub open spec fn release_memo_text(escrow_id: u64) -> Seq<char> {
    "Milestone payment for escrow "@ + decimal_of(escrow_id as nat)
}

/// The memo carried by a deposit into an escrow for the given listing.
pub fn deposit_memo(listing_id: u64) -> (r: String)
    ensures
        r@ == deposit_memo_text(listing_id),
{
    let mut s = String::from_str("Escrow deposit for listing ");
    append_decimal(&mut s, listing_id);
    s
}

/// The memo carried by a milestone payment out of the given escrow.
pub fn release_memo(escrow_id: u64) -> (r: String)
    ensures
        r@ == release_memo_text(escrow_id),
{
    let mut s = String::from_str("Milestone payment for escrow ");
    append_decimal(&mut s, escrow_id);
    s
}

impl PullTransfer {
    /// The deposit of `amount` by `buyer` into escrow `escrow_id` of listing `listing_id`.
    pub fn deposit(escrow_id: u64, listing_id: u64, buyer: &Party, amount: u64) -> (r: PullTransfer)
        ensures
            r.from == *buyer,
            r.to_subaccount@ == be_digits(escrow_id as nat, 8),
            r.amount == amount,
            r.memo@ == deposit_memo_text(listing_id),
    {
        PullTransfer {
            from: buyer.clone(),
            to_subaccount: escrow_subaccount(escrow_id),
            amount,
            memo: deposit_memo(listing_id),
        }
    }
}

impl PushTransfer {
    /// The payment of `amount` out of escrow `escrow_id` to `seller`.
    pub fn payment(escrow_id: u64, seller: &Party, amount: u64) -> (r: PushTransfer)
        ensures
            r.from_subaccount@ == be_digits(escrow_id as nat, 8),
            r.to == *seller,
            r.amount == amount,
            r.memo@ == release_memo_text(escrow_id),
    {
        PushTransfer {
            from_subaccount: escrow_subaccount(escrow_id),
            to: seller.clone(),
            amount,
            memo: release_memo(escrow_id),
        }
    }
}

} // verus!
