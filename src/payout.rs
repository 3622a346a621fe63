use vstd::prelude::*;
use crate::key::Key;

verus! {

/// Share of the price that goes to the queue owner, in percent.
pub const PERC_OWNER: u64 = 60;
/// Share of the owner's direct referrer, in percent.
pub const PERC_REF1: u64 = 13;
/// Share of the second upline, in percent.
pub const PERC_REF2: u64 = 8;
/// Share of the third upline, in percent.
pub const PERC_REF3: u64 = 5;
/// Share that the treasury receives when every referrer is paid, in percent.
pub const PERC_TREASURY_BASE: u64 = 14;
/// The whole price, in percent.
pub const PERC_TOTAL: u64 = 100;

/// `price * perc`, held at `u64::MAX` when it would not fit.
pub open spec fn saturating_product(price: u64, perc: u64) -> u64 {
    if price * perc > u64::MAX {
        u64::MAX
    } else {
        (price * perc) as u64
    }
}

/// The floor-divided percentage share of a price.
pub open spec fn share_of(price: u64, perc: u64) -> u64 {
    (saturating_product(price, perc) / 100) as u64
}

pub fn calc_share(price: u64, perc: u64) -> (r: u64)
    ensures
        r == share_of(price, perc),
{
    let product: u64 = match price.checked_mul(perc) {
        Some(v) => v,
        None => u64::MAX,
    };
    product / 100
}

/// A share is never more than its exact fraction of the price.
pub proof fn lemma_share_bound(price: u64, perc: u64)
    ensures
        100 * (share_of(price, perc) as int) <= (price as int) * (perc as int),
{
    let p = saturating_product(price, perc) as int;
    assert(p <= (price as int) * (perc as int));
    assert(100 * (p / 100) <= p) by (nonlinear_arith);
}

/// The sum of the four shares paid to participants.
pub open spec fn participant_shares(price: u64) -> int {
    share_of(price, PERC_OWNER) + share_of(price, PERC_REF1) + share_of(price, PERC_REF2)
        + share_of(price, PERC_REF3)
}

/// What is left of the price for the treasury when every referrer is paid.
pub open spec fn treasury_base_share(price: u64) -> int {
    price - participant_shares(price)
}

/// Amounts that one activation pays out.
#[derive(Clone, Copy, Debug, PartialEq, Eq, Structural)]
pub struct Payouts {
    pub owner: u64,
    pub ref1: u64,
    pub ref2: u64,
    pub ref3: u64,
    pub treasury: u64,
}

/// A referral recipient that is the treasury or the admin is not paid apart:
/// its share goes to the treasury.
pub open spec fn folds_into_treasury(recipient: Key, admin: Key, treasury: Key) -> bool {
    recipient == treasury || recipient == admin
}

/// A referral share as paid to its recipient.
pub open spec fn paid_share(price: u64, perc: u64, recipient: Key, admin: Key, treasury: Key) -> int {
    if folds_into_treasury(recipient, admin, treasury) {
        0
    } else {
        share_of(price, perc) as int
    }
}

/// A referral share as folded into the treasury transfer.
pub open spec fn folded_share(price: u64, perc: u64, recipient: Key, admin: Key, treasury: Key) -> int {
    share_of(price, perc) - paid_share(price, perc, recipient, admin, treasury)
}

/// The split of `price` between the owner, the three resolved referrers and
/// the treasury.
pub open spec fn payouts_for(
    price: u64,
    ref1: Key,
    ref2: Key,
    ref3: Key,
    admin: Key,
    treasury: Key,
) -> Payouts {
    Payouts {
        owner: share_of(price, PERC_OWNER),
        ref1: paid_share(price, PERC_REF1, ref1, admin, treasury) as u64,
        ref2: paid_share(price, PERC_REF2, ref2, admin, treasury) as u64,
        ref3: paid_share(price, PERC_REF3, ref3, admin, treasury) as u64,
        treasury: (treasury_base_share(price) + folded_share(price, PERC_REF1, ref1, admin, treasury)
            + folded_share(price, PERC_REF2, ref2, admin, treasury)
            + folded_share(price, PERC_REF3, ref3, admin, treasury)) as u64,
    }
}

/// The four participant shares never take more than 86% of the price.
pub proof fn lemma_participant_shares_bound(price: u64)
    ensures
        100 * participant_shares(price) <= 86 * (price as int),
        0 <= participant_shares(price) <= price,
{
    lemma_share_bound(price, PERC_OWNER);
    lemma_share_bound(price, PERC_REF1);
    lemma_share_bound(price, PERC_REF2);
    lemma_share_bound(price, PERC_REF3);
}

/// For every price, the owner's, the three referrers' and the treasury's
/// amounts add up to exactly the price, whichever referrers are folded into
/// the treasury; the four shares alone with the treasury's base share do too.
pub proof fn lemma_payouts_sum_to_price(
    price: u64,
    ref1: Key,
    ref2: Key,
    ref3: Key,
    admin: Key,
    treasury: Key,
)
    ensures
        ({
            let p = payouts_for(price, ref1, ref2, ref3, admin, treasury);
            p.owner + p.ref1 + p.ref2 + p.ref3 + p.treasury == price
        }),
        share_of(price, PERC_OWNER) + share_of(price, PERC_REF1) + share_of(price, PERC_REF2)
            + share_of(price, PERC_REF3) + treasury_base_share(price) == price,
        treasury_base_share(price) >= 0,
{
    lemma_participant_shares_bound(price);
}

/// Computes the split of `price` for the resolved referrers.
pub fn compute_payouts(
    price: u64,
    ref1: &Key,
    ref2: &Key,
    ref3: &Key,
    admin: &Key,
    treasury: &Key,
) -> (r: Payouts)
    ensures
        r == payouts_for(price, *ref1, *ref2, *ref3, *admin, *treasury),
{
    proof {
        lemma_participant_shares_bound(price);
    }
    let amt_owner = calc_share(price, PERC_OWNER);
    let amt_ref1_raw = calc_share(price, PERC_REF1);
    let amt_ref2_raw = calc_share(price, PERC_REF2);
    let amt_ref3_raw = calc_share(price, PERC_REF3);
    let sum_non_treas = amt_owner + amt_ref1_raw + amt_ref2_raw + amt_ref3_raw;
    let mut amt_treas = price - sum_non_treas;
    let mut amt_ref1 = amt_ref1_raw;
    let mut amt_ref2 = amt_ref2_raw;
    let mut amt_ref3 = amt_ref3_raw;
    if ref1.same_as(treasury) || ref1.same_as(admin) {
        amt_treas = amt_treas + amt_ref1;
        amt_ref1 = 0;
    }
    if ref2.same_as(treasury) || ref2.same_as(admin) {
        amt_treas = amt_treas + amt_ref2;
        amt_ref2 = 0;
    }
    if ref3.same_as(treasury) || ref3.same_as(admin) {
        amt_treas = amt_treas + amt_ref3;
        amt_ref3 = 0;
    }
    Payouts { owner: amt_owner, ref1: amt_ref1, ref2: amt_ref2, ref3: amt_ref3, treasury: amt_treas }
}

} // verus!
