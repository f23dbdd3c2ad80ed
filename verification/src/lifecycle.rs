use vstd::prelude::*;

use crate::laws::{law_bond_redeem_amount, law_hybrid_payment_within_bounds};
use crate::model::{
    bond_consistent, bond_default_error, bond_redeem_amount, bond_redeem_error, bond_transfer_error,
    issue_error, paid_bond,
};
use crate::payment::{compute_hybrid_payment, hybrid_payment};
use crate::types::{Address, Bond, BondError, BondModel, BondStatus, BondTerms};

verus! {

/// Checks the parties and terms offered for a new bond.
pub fn validate_issue(issuer: &Address, owner: &Address, terms: &BondTerms) -> (r: Result<(), BondError>)
    ensures
        match r {
            Ok(()) => issue_error(issuer@, owner@, terms@) is None,
            Err(e) => issue_error(issuer@, owner@, terms@) == Some(e),
        },
{
    if issuer.same_as(owner) {
        return Err(BondError::IssuerIsOwner);
    }
    if terms.face_value <= 0 {
        return Err(BondError::InvalidFaceValue);
    }
    if terms.min_payment_per_period < 0 {
        return Err(BondError::NegativeMinPayment);
    }
    if terms.max_payment_per_period < terms.min_payment_per_period {
        return Err(BondError::InvalidPaymentRange);
    }
    if terms.revenue_share_bps > 10000 {
        return Err(BondError::InvalidShareBps);
    }
    Ok(())
}

impl Bond {
    /// Whether this bond's terms, total and status agree with one another.
    pub fn is_consistent(&self) -> (r: bool)
        ensures
            r == bond_consistent(self@),
    {
        let t = &self.terms;
        t.face_value > 0 && 0 <= t.min_payment_per_period
            && t.min_payment_per_period <= t.max_payment_per_period && t.revenue_share_bps <= 10000
            && 0 <= self.total_redeemed && self.total_redeemed <= t.face_value && (self.status
            != BondStatus::Active || self.total_redeemed < t.face_value) && (self.status
            != BondStatus::FullyRedeemed || self.total_redeemed == t.face_value)
    }

    /// One redemption of this bond: `already_redeemed` says whether the period was paid
    /// before, `attested_revenue` is the revenue attested for it. Returns the bond after the
    /// payment and the amount paid.
    pub fn redeemed(&self, already_redeemed: bool, attested_revenue: Option<i128>) -> (r: Result<(Bond, i128), BondError>)
        requires
            bond_consistent(self@),
        ensures
            match r {
                Ok((b, amount)) => {
                    &&& bond_redeem_error(self@, already_redeemed, attested_revenue) is None
                    &&& amount == bond_redeem_amount(self@, attested_revenue.unwrap() as int)
                    &&& b@ == paid_bond(self@, amount as int)
                    &&& bond_consistent(b@)
                },
                Err(e) => bond_redeem_error(self@, already_redeemed, attested_revenue) == Some(e),
            },
            (self.status == BondStatus::Active && !already_redeemed && attested_revenue is Some
                && attested_revenue.unwrap() >= 0) ==> r is Ok,
            r matches Ok((b, amount)) ==> {
                let hp = hybrid_payment(
                    attested_revenue.unwrap() as int,
                    self.terms.revenue_share_bps as int,
                    self.terms.min_payment_per_period as int,
                    self.terms.max_payment_per_period as int,
                );
                let rem = self.terms.face_value - self.total_redeemed;
                &&& hp <= rem ==> amount == hp
                &&& hp > rem ==> amount == rem
                &&& b.total_redeemed == self.total_redeemed + amount
                &&& b@.owner == self@.owner
                &&& (b.status == BondStatus::FullyRedeemed) == (b.total_redeemed == b.terms.face_value)
            },
    {
        if self.status != BondStatus::Active {
            return Err(BondError::BondNotActive);
        }
        if already_redeemed {
            return Err(BondError::AlreadyRedeemed);
        }
        let revenue: i128 = match attested_revenue {
            None => {
                return Err(BondError::RevenueNotAttested);
            },
            Some(v) => v,
        };
        if revenue < 0 {
            return Err(BondError::NegativeRevenue);
        }
        let t = &self.terms;
        let remaining: i128 = t.face_value - self.total_redeemed;
        let p = compute_hybrid_payment(
            revenue,
            t.revenue_share_bps,
            t.min_payment_per_period,
            t.max_payment_per_period,
        );
        proof {
            law_hybrid_payment_within_bounds(
                revenue as int,
                t.revenue_share_bps as int,
                t.min_payment_per_period as int,
                t.max_payment_per_period as int,
            );
        }
        let amount: i128 = if p > remaining { remaining } else { p };
        proof {
            law_bond_redeem_amount(self@, revenue as int);
        }
        let mut b = self.duplicate();
        let total: i128 = b.total_redeemed + amount;
        b.total_redeemed = total;
        if total == b.terms.face_value {
            b.status = BondStatus::FullyRedeemed;
        }
        Ok((b, amount))
    }

    /// This bond handed on by `from`, who must be its owner, to `to`.
    pub fn transferred(&self, from: &Address, to: Address) -> (r: Result<Bond, BondError>)
        ensures
            match r {
                Ok(b) => bond_transfer_error(self@, from@) is None && b@ == (BondModel { owner: to@, ..self@ }),
                Err(e) => bond_transfer_error(self@, from@) == Some(e),
            },
            (self@.owner == from@) == (r is Ok),
            r matches Ok(b) ==> b@.owner == to@ && b.status == self.status && b.total_redeemed == self.total_redeemed,
    {
        if !self.owner.same_as(from) {
            return Err(BondError::NotOwner);
        }
        let mut b = self.duplicate();
        b.owner = to;
        Ok(b)
    }

    /// This bond marked defaulted; only an active bond can be.
    pub fn defaulted(&self) -> (r: Result<Bond, BondError>)
        ensures
            match r {
                Ok(b) => bond_default_error(self@) is None && b@ == (BondModel { status: BondStatus::Defaulted, ..self@ }),
                Err(e) => bond_default_error(self@) == Some(e),
            },
            (self.status == BondStatus::Active) == (r is Ok),
            r matches Ok(b) ==> b.status == BondStatus::Defaulted && b.total_redeemed == self.total_redeemed,
    {
        if self.status != BondStatus::Active {
            return Err(BondError::BondNotActive);
        }
        let mut b = self.duplicate();
        b.status = BondStatus::Defaulted;
        Ok(b)
    }
}

} // verus!
