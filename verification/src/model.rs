use vstd::prelude::*;

use crate::payment::hybrid_payment;
use crate::types::{BondError, BondModel, BondStatus, PaymentModel, RecordModel, TermsModel};

verus! {

/// The whole state of the contract, as mathematics.
pub struct ContractModel {
    /// The administrator, once the contract is initialized.
    pub admin: Option<Seq<char>>,
    /// The bonds; a bond's id is its position.
    pub bonds: Seq<BondModel>,
    /// Every redemption ever made, in order.
    pub redemptions: Seq<RecordModel>,
    /// Attested revenue, keyed by (business, period).
    pub revenues: Map<(Seq<char>, Seq<char>), i128>,
}

/// Why terms offered for a new bond are refused, if they are.
pub open spec fn issue_error(issuer: Seq<char>, owner: Seq<char>, terms: TermsModel) -> Option<BondError> {
    if issuer == owner {
        Some(BondError::IssuerIsOwner)
    } else if terms.face_value <= 0 {
        Some(BondError::InvalidFaceValue)
    } else if terms.min_payment_per_period < 0 {
        Some(BondError::NegativeMinPayment)
    } else if terms.max_payment_per_period < terms.min_payment_per_period {
        Some(BondError::InvalidPaymentRange)
    } else if terms.revenue_share_bps > 10000 {
        Some(BondError::InvalidShareBps)
    } else {
        None
    }
}

/// Terms that a bond may be issued under.
pub open spec fn terms_valid(terms: TermsModel) -> bool {
    &&& terms.face_value > 0
    &&& 0 <= terms.min_payment_per_period <= terms.max_payment_per_period
    &&& terms.revenue_share_bps <= 10000
}

/// Sum of the amounts recorded for bond `id` in `records`.
pub open spec fn redeemed_sum(records: Seq<RecordModel>, id: u64) -> int
    decreases records.len(),
{
    if records.len() == 0 {
        0
    } else {
        redeemed_sum(records.drop_last(), id) + (if records.last().bond_id == id {
            records.last().redemption_amount as int
        } else {
            0
        })
    }
}

/// The payment for one period, given the terms, the attested revenue and what is left of
/// the face value: the hybrid payment, never more than what is left.
pub open spec fn capped_payment(terms: TermsModel, revenue: int, remaining: int) -> int {
    let p = hybrid_payment(
        revenue,
        terms.revenue_share_bps as int,
        terms.min_payment_per_period as int,
        terms.max_payment_per_period as int,
    );
    if p > remaining { remaining } else { p }
}

/// What a single bond keeps true: valid terms, a total paid between zero and the face value,
/// strictly below it while active, and exactly at it once fully redeemed.
pub open spec fn bond_consistent(b: BondModel) -> bool {
    &&& terms_valid(b.terms)
    &&& 0 <= b.total_redeemed <= b.terms.face_value
    &&& (b.status == BondStatus::Active ==> b.total_redeemed < b.terms.face_value)
    &&& (b.status == BondStatus::FullyRedeemed ==> b.total_redeemed == b.terms.face_value)
}

/// Why a redemption of bond `b` is refused, given whether the period was already redeemed
/// and the revenue attested for it; the checks run in this order.
pub open spec fn bond_redeem_error(b: BondModel, already_redeemed: bool, revenue: Option<i128>) -> Option<BondError> {
    if b.status != BondStatus::Active {
        Some(BondError::BondNotActive)
    } else if already_redeemed {
        Some(BondError::AlreadyRedeemed)
    } else if revenue is None {
        Some(BondError::RevenueNotAttested)
    } else if revenue.unwrap() < 0 {
        Some(BondError::NegativeRevenue)
    } else {
        None
    }
}

/// The amount one redemption of bond `b` pays for attested `revenue`.
pub open spec fn bond_redeem_amount(b: BondModel, revenue: int) -> int {
    capped_payment(b.terms, revenue, b.terms.face_value - b.total_redeemed)
}

/// Bond `b` after a redemption that pays `amount`.
pub open spec fn paid_bond(b: BondModel, amount: int) -> BondModel {
    let total = b.total_redeemed + amount;
    BondModel {
        total_redeemed: total as i128,
        status: if total == b.terms.face_value {
            BondStatus::FullyRedeemed
        } else {
            b.status
        },
        ..b
    }
}

/// Why handing bond `b` on by `from` is refused, if it is.
pub open spec fn bond_transfer_error(b: BondModel, from: Seq<char>) -> Option<BondError> {
    if b.owner != from {
        Some(BondError::NotOwner)
    } else {
        None
    }
}

/// Why marking bond `b` defaulted is refused, if it is.
pub open spec fn bond_default_error(b: BondModel) -> Option<BondError> {
    if b.status != BondStatus::Active {
        Some(BondError::BondNotActive)
    } else {
        None
    }
}

impl ContractModel {
    /// The state of a freshly deployed contract.
    pub open spec fn empty() -> ContractModel {
        ContractModel {
            admin: None,
            bonds: Seq::empty(),
            redemptions: Seq::empty(),
            revenues: Map::empty(),
        }
    }

    /// What each bond keeps true about itself and its redemptions.
    pub open spec fn bond_wf(self, i: int) -> bool {
        let b = self.bonds[i];
        &&& b.id == i
        &&& bond_consistent(b)
        &&& b.total_redeemed == redeemed_sum(self.redemptions, i as u64)
    }

    /// Every bond keeps [`Self::bond_wf`].
    pub open spec fn bonds_wf(self) -> bool {
        forall|i: int| 0 <= i < self.bonds.len() ==> #[trigger] self.bond_wf(i)
    }

    /// Every record names an existing bond and pays a non-negative amount.
    pub open spec fn records_wf(self) -> bool {
        forall|j: int|
            0 <= j < self.redemptions.len() ==> {
                &&& #[trigger] self.redemptions[j].bond_id < self.bonds.len()
                &&& self.redemptions[j].redemption_amount >= 0
            }
    }

    /// No bond is recorded twice for one period.
    pub open spec fn records_unique(self) -> bool {
        forall|j: int, k: int|
            0 <= j < k < self.redemptions.len() ==> !(#[trigger] self.redemptions[j].bond_id
                == #[trigger] self.redemptions[k].bond_id && self.redemptions[j].period
                == self.redemptions[k].period)
    }

    /// The invariant of the contract state.
    pub open spec fn wf(self) -> bool {
        &&& self.bonds_wf()
        &&& self.records_wf()
        &&& self.records_unique()
    }

    pub open spec fn has_bond(self, id: u64) -> bool {
        id < self.bonds.len()
    }

    pub open spec fn bond(self, id: u64) -> BondModel {
        self.bonds[id as int]
    }

    /// Face value not yet paid out (0 for an unknown bond).
    pub open spec fn remaining(self, id: u64) -> int {
        if self.has_bond(id) {
            self.bond(id).terms.face_value - self.bond(id).total_redeemed
        } else {
            0
        }
    }

    /// Total paid out for a bond (0 for an unknown bond).
    pub open spec fn total_redeemed(self, id: u64) -> int {
        if self.has_bond(id) {
            self.bond(id).total_redeemed as int
        } else {
            0
        }
    }

    /// Whether bond `id` has been redeemed for `period`.
    pub open spec fn is_redeemed(self, id: u64, period: Seq<char>) -> bool {
        exists|j: int|
            0 <= j < self.redemptions.len() && #[trigger] self.redemptions[j].bond_id == id
                && self.redemptions[j].period == period
    }

    // ---- initialize ----

    pub open spec fn initialize_error(self) -> Option<BondError> {
        if self.admin is Some {
            Some(BondError::AlreadyInitialized)
        } else {
            None
        }
    }

    pub open spec fn after_initialize(self, admin: Seq<char>) -> ContractModel {
        ContractModel { admin: Some(admin), ..self }
    }

    // ---- attested revenue ----

    pub open spec fn after_attest(self, business: Seq<char>, period: Seq<char>, revenue: i128) -> ContractModel {
        ContractModel { revenues: self.revenues.insert((business, period), revenue), ..self }
    }

    // ---- issue ----

    pub open spec fn new_bond(
        self,
        issuer: Seq<char>,
        owner: Seq<char>,
        terms: TermsModel,
        attestation: Seq<char>,
        token: Seq<char>,
    ) -> BondModel {
        BondModel {
            id: self.bonds.len() as u64,
            issuer,
            owner,
            terms,
            attestation,
            token,
            status: BondStatus::Active,
            total_redeemed: 0,
        }
    }

    pub open spec fn after_issue(
        self,
        issuer: Seq<char>,
        owner: Seq<char>,
        terms: TermsModel,
        attestation: Seq<char>,
        token: Seq<char>,
    ) -> ContractModel {
        ContractModel {
            bonds: self.bonds.push(self.new_bond(issuer, owner, terms, attestation, token)),
            ..self
        }
    }

    // ---- redeem ----

    /// The attested revenue that a redemption of `id` for `period` reads.
    pub open spec fn attested(self, id: u64, period: Seq<char>) -> Option<i128> {
        let key = (self.bond(id).issuer, period);
        if self.revenues.contains_key(key) {
            Some(self.revenues[key])
        } else {
            None
        }
    }

    /// Why a redemption of `id` for `period` is refused, if it is; the checks run in this order.
    pub open spec fn redeem_error(self, id: u64, period: Seq<char>) -> Option<BondError> {
        if !self.has_bond(id) {
            Some(BondError::BondNotFound)
        } else {
            bond_redeem_error(self.bond(id), self.is_redeemed(id, period), self.attested(id, period))
        }
    }

    /// The amount that a redemption of `id` for `period` pays.
    pub open spec fn redeem_amount(self, id: u64, period: Seq<char>) -> int {
        bond_redeem_amount(self.bond(id), self.attested(id, period).unwrap() as int)
    }

    pub open spec fn after_redeem(self, id: u64, period: Seq<char>) -> ContractModel {
        let amount = self.redeem_amount(id, period);
        ContractModel {
            bonds: self.bonds.update(id as int, paid_bond(self.bond(id), amount)),
            redemptions: self.redemptions.push(
                RecordModel {
                    bond_id: id,
                    period,
                    attested_revenue: self.attested(id, period).unwrap(),
                    redemption_amount: amount as i128,
                },
            ),
            ..self
        }
    }

    /// The transfer that a redemption of `id` for `period` owes.
    pub open spec fn redeem_payment(self, id: u64, period: Seq<char>) -> PaymentModel {
        PaymentModel {
            token: self.bond(id).token,
            from: self.bond(id).issuer,
            to: self.bond(id).owner,
            amount: self.redeem_amount(id, period) as i128,
        }
    }

    /// The record of bond `id` for `period`, if there is one.
    pub open spec fn redemption_of(self, id: u64, period: Seq<char>) -> Option<RecordModel> {
        if self.is_redeemed(id, period) {
            let j = choose|j: int|
                0 <= j < self.redemptions.len() && #[trigger] self.redemptions[j].bond_id == id
                    && self.redemptions[j].period == period;
            Some(self.redemptions[j])
        } else {
            None
        }
    }

    // ---- ownership ----

    pub open spec fn transfer_error(self, id: u64, from: Seq<char>) -> Option<BondError> {
        if !self.has_bond(id) {
            Some(BondError::BondNotFound)
        } else {
            bond_transfer_error(self.bond(id), from)
        }
    }

    pub open spec fn after_transfer(self, id: u64, to: Seq<char>) -> ContractModel {
        ContractModel {
            bonds: self.bonds.update(id as int, BondModel { owner: to, ..self.bond(id) }),
            ..self
        }
    }

    // ---- default ----

    pub open spec fn default_error(self, caller: Seq<char>, id: u64) -> Option<BondError> {
        if self.admin is None {
            Some(BondError::NotInitialized)
        } else if self.admin.unwrap() != caller {
            Some(BondError::Unauthorized)
        } else if !self.has_bond(id) {
            Some(BondError::BondNotFound)
        } else {
            bond_default_error(self.bond(id))
        }
    }

    pub open spec fn after_default(self, id: u64) -> ContractModel {
        ContractModel {
            bonds: self.bonds.update(
                id as int,
                BondModel { status: BondStatus::Defaulted, ..self.bond(id) },
            ),
            ..self
        }
    }
}

/// Appending a record adds its amount to the sum of its own bond and leaves the others.
pub proof fn lemma_redeemed_sum_push(records: Seq<RecordModel>, r: RecordModel, id: u64)
    ensures
        redeemed_sum(records.push(r), id) == redeemed_sum(records, id) + (if r.bond_id == id {
            r.redemption_amount as int
        } else {
            0
        }),
{
    assert(records.push(r).drop_last() =~= records);
}

/// A bond that no record names has redeemed nothing.
pub proof fn lemma_redeemed_sum_unnamed(records: Seq<RecordModel>, id: u64)
    requires
        forall|j: int| 0 <= j < records.len() ==> #[trigger] records[j].bond_id != id,
    ensures
        redeemed_sum(records, id) == 0,
    decreases records.len(),
{
    if records.len() > 0 {
        lemma_redeemed_sum_unnamed(records.drop_last(), id);
    }
}

/// Summing over a longer prefix of records with non-negative amounts never gives less.
pub proof fn lemma_redeemed_sum_prefix(records: Seq<RecordModel>, k: int, id: u64)
    requires
        0 <= k <= records.len(),
        forall|j: int| 0 <= j < records.len() ==> #[trigger] records[j].redemption_amount >= 0,
    ensures
        redeemed_sum(records.take(k), id) <= redeemed_sum(records, id),
    decreases records.len(),
{
    if k < records.len() {
        let init = records.drop_last();
        assert forall|j: int| 0 <= j < init.len() implies #[trigger] init[j].redemption_amount >= 0 by {
            assert(init[j] == records[j]);
        }
        lemma_redeemed_sum_prefix(init, k, id);
        assert(init.take(k) =~= records.take(k));
    } else {
        assert(records.take(k) =~= records);
    }
}

/// The sum over the first `k + 1` records extends the sum over the first `k` by record `k`.
pub proof fn lemma_redeemed_sum_step(records: Seq<RecordModel>, k: int, id: u64)
    requires
        0 <= k < records.len(),
    ensures
        redeemed_sum(records.take(k + 1), id) == redeemed_sum(records.take(k), id) + (if records[k].bond_id == id {
            records[k].redemption_amount as int
        } else {
            0
        }),
{
    assert(records.take(k + 1).drop_last() =~= records.take(k));
}

} // verus!
