use vstd::prelude::*;

use crate::model::{
    bond_consistent, bond_default_error, bond_redeem_amount, bond_redeem_error, bond_transfer_error,
    issue_error, lemma_redeemed_sum_push, lemma_redeemed_sum_unnamed, ContractModel,
};
use crate::payment::hybrid_payment;
use crate::types::{BondError, BondModel, BondStatus, RecordModel, TermsModel};

verus! {

/// The hybrid payment of a period lies between the per-period minimum and maximum,
/// whatever revenue is attested (however large: the arithmetic saturates).
pub proof fn law_hybrid_payment_within_bounds(revenue: int, bps: int, min_payment: int, max_payment: int)
    requires
        revenue >= 0,
        bps >= 0,
        0 <= min_payment <= max_payment <= i128::MAX,
    ensures
        min_payment <= hybrid_payment(revenue, bps, min_payment, max_payment) <= max_payment,
{
    assert(revenue * bps >= 0) by (nonlinear_arith)
        requires
            revenue >= 0,
            bps >= 0,
    ;
}

/// With a revenue share of zero basis points a hybrid bond pays exactly its fixed minimum.
pub proof fn law_zero_share_pays_minimum(revenue: int, min_payment: int, max_payment: int)
    requires
        revenue >= 0,
        0 <= min_payment <= max_payment <= i128::MAX,
    ensures
        hybrid_payment(revenue, 0, min_payment, max_payment) == min_payment,
{
}

/// Below the per-period maximum, the hybrid payment is the fixed minimum plus the revenue
/// share, each counted once.
pub proof fn law_hybrid_payment_is_minimum_plus_share(revenue: int, bps: int, min_payment: int, max_payment: int)
    requires
        revenue >= 0,
        0 <= bps,
        revenue * bps <= i128::MAX,
        0 <= min_payment,
        min_payment + (revenue * bps) / 10000 <= max_payment <= i128::MAX,
    ensures
        hybrid_payment(revenue, bps, min_payment, max_payment) == min_payment + (revenue * bps) / 10000,
{
}

/// A fresh contract satisfies the invariant.
pub proof fn law_empty_is_wf()
    ensures
        ContractModel::empty().wf(),
{
}

/// Initializing keeps the invariant.
pub proof fn law_initialize_keeps_wf(m: ContractModel, admin: Seq<char>)
    requires
        m.wf(),
    ensures
        m.after_initialize(admin).wf(),
{
    let m2 = m.after_initialize(admin);
    assert forall|i: int| 0 <= i < m2.bonds.len() implies #[trigger] m2.bond_wf(i) by {
        assert(m.bond_wf(i));
    }
}

/// Recording attested revenue keeps the invariant.
pub proof fn law_attest_keeps_wf(m: ContractModel, business: Seq<char>, period: Seq<char>, revenue: i128)
    requires
        m.wf(),
    ensures
        m.after_attest(business, period, revenue).wf(),
{
    let m2 = m.after_attest(business, period, revenue);
    assert forall|i: int| 0 <= i < m2.bonds.len() implies #[trigger] m2.bond_wf(i) by {
        assert(m.bond_wf(i));
    }
}

/// Issuing a bond on accepted terms keeps the invariant; the new bond starts active with
/// nothing redeemed.
pub proof fn law_issue_keeps_wf(
    m: ContractModel,
    issuer: Seq<char>,
    owner: Seq<char>,
    terms: TermsModel,
    attestation: Seq<char>,
    token: Seq<char>,
)
    requires
        m.wf(),
        m.bonds.len() < u64::MAX,
        issue_error(issuer, owner, terms) is None,
    ensures
        m.after_issue(issuer, owner, terms, attestation, token).wf(),
{
    let m2 = m.after_issue(issuer, owner, terms, attestation, token);
    let n = m.bonds.len();
    assert forall|j: int| 0 <= j < m.redemptions.len() implies #[trigger] m.redemptions[j].bond_id
        != n as u64 by {
        assert(m.redemptions[j].bond_id < n);
    }
    lemma_redeemed_sum_unnamed(m.redemptions, n as u64);
    assert forall|i: int| 0 <= i < m2.bonds.len() implies #[trigger] m2.bond_wf(i) by {
        if i < n {
            assert(m.bond_wf(i));
        }
    }
}

/// A redemption that is not refused pays out no more than what is left of the face value,
/// no more than the per-period maximum, and no less than the per-period minimum unless what
/// is left is smaller.
pub proof fn law_redeem_amount_bounds(m: ContractModel, id: u64, period: Seq<char>)
    requires
        m.wf(),
        m.redeem_error(id, period) is None,
    ensures
        0 <= m.redeem_amount(id, period) <= m.remaining(id),
        m.redeem_amount(id, period) <= m.bond(id).terms.max_payment_per_period,
        m.redeem_amount(id, period) >= m.bond(id).terms.min_payment_per_period
            || m.redeem_amount(id, period) == m.remaining(id),
        m.remaining(id) > 0,
{
    let b = m.bond(id);
    assert(m.bond_wf(id as int));
    law_hybrid_payment_within_bounds(
        m.attested(id, period).unwrap() as int,
        b.terms.revenue_share_bps as int,
        b.terms.min_payment_per_period as int,
        b.terms.max_payment_per_period as int,
    );
}

/// A redemption that is not refused keeps the invariant: the total paid never exceeds the
/// face value, equals the sum of the recorded payments, the bond is fully redeemed exactly
/// when the face value is reached, and no period is recorded twice for a bond.
pub proof fn law_redeem_keeps_wf(m: ContractModel, id: u64, period: Seq<char>)
    requires
        m.wf(),
        m.redeem_error(id, period) is None,
    ensures
        m.after_redeem(id, period).wf(),
{
    law_redeem_amount_bounds(m, id, period);
    let m2 = m.after_redeem(id, period);
    let amount = m.redeem_amount(id, period);
    let rec = m2.redemptions.last();
    assert(m2.redemptions.len() == m.redemptions.len() + 1);
    assert(m2.redemptions[m.redemptions.len() as int] == rec);
    assert forall|i: int| 0 <= i < m2.bonds.len() implies #[trigger] m2.bond_wf(i) by {
        assert(m.bond_wf(i));
        lemma_redeemed_sum_push(m.redemptions, rec, i as u64);
        assert(m2.redemptions =~= m.redemptions.push(rec));
    }
    assert forall|j: int| 0 <= j < m2.redemptions.len() implies {
        &&& #[trigger] m2.redemptions[j].bond_id < m2.bonds.len()
        &&& m2.redemptions[j].redemption_amount >= 0
    } by {
        if j < m.redemptions.len() {
            assert(m2.redemptions[j] == m.redemptions[j]);
        }
    }
    assert forall|j: int, k: int| 0 <= j < k < m2.redemptions.len() implies !(
    #[trigger] m2.redemptions[j].bond_id == #[trigger] m2.redemptions[k].bond_id
        && m2.redemptions[j].period == m2.redemptions[k].period) by {
        assert(m2.redemptions[j] == m.redemptions[j]);
        if k < m.redemptions.len() {
            assert(m2.redemptions[k] == m.redemptions[k]);
        } else {
            if m.redemptions[j].bond_id == id && m.redemptions[j].period == period {
                assert(m.is_redeemed(id, period));
            }
        }
    }
}

/// Transferring ownership keeps the invariant.
pub proof fn law_transfer_keeps_wf(m: ContractModel, id: u64, to: Seq<char>)
    requires
        m.wf(),
        m.has_bond(id),
    ensures
        m.after_transfer(id, to).wf(),
{
    let m2 = m.after_transfer(id, to);
    assert forall|i: int| 0 <= i < m2.bonds.len() implies #[trigger] m2.bond_wf(i) by {
        assert(m.bond_wf(i));
    }
}

/// Marking an active bond defaulted keeps the invariant.
pub proof fn law_default_keeps_wf(m: ContractModel, id: u64)
    requires
        m.wf(),
        m.has_bond(id),
    ensures
        m.after_default(id).wf(),
{
    let m2 = m.after_default(id);
    assert forall|i: int| 0 <= i < m2.bonds.len() implies #[trigger] m2.bond_wf(i) by {
        assert(m.bond_wf(i));
    }
}

/// Across a redemption the remaining value of every bond stays non-negative and never grows;
/// only the redeemed bond changes, by exactly the amount paid, and it becomes fully redeemed
/// exactly when nothing remains.
pub proof fn law_redeem_remaining_monotone(m: ContractModel, id: u64, period: Seq<char>, other: u64)
    requires
        m.wf(),
        m.redeem_error(id, period) is None,
    ensures
        0 <= m.after_redeem(id, period).remaining(other) <= m.remaining(other),
        other != id ==> m.after_redeem(id, period).remaining(other) == m.remaining(other),
        m.after_redeem(id, period).remaining(id) == m.remaining(id) - m.redeem_amount(id, period),
        m.after_redeem(id, period).total_redeemed(id) == m.total_redeemed(id) + m.redeem_amount(id, period),
        (m.after_redeem(id, period).bond(id).status == BondStatus::FullyRedeemed)
            == (m.after_redeem(id, period).remaining(id) == 0),
{
    law_redeem_amount_bounds(m, id, period);
    law_redeem_keeps_wf(m, id, period);
    if m.has_bond(other) {
        assert(m.bond_wf(other as int));
    }
}

/// Transferring ownership or marking a bond defaulted changes no amount: the total paid
/// and the remaining value of every bond stay as they were.
pub proof fn law_transfer_and_default_keep_amounts(m: ContractModel, id: u64, to: Seq<char>, other: u64)
    requires
        m.wf(),
        m.has_bond(id),
    ensures
        m.after_transfer(id, to).remaining(other) == m.remaining(other),
        m.after_transfer(id, to).total_redeemed(other) == m.total_redeemed(other),
        m.after_default(id).remaining(other) == m.remaining(other),
        m.after_default(id).total_redeemed(other) == m.total_redeemed(other),
{
}

/// A period is paid at most once per bond: once a redemption for it succeeded, every later
/// attempt for the same bond and period is refused, as already redeemed while the bond is
/// still active, and as not active once it is fully redeemed.
pub proof fn law_period_redeemed_once(m: ContractModel, id: u64, period: Seq<char>)
    requires
        m.wf(),
        m.redeem_error(id, period) is None,
    ensures
        m.after_redeem(id, period).is_redeemed(id, period),
        m.after_redeem(id, period).redeem_error(id, period) == (if m.after_redeem(id, period).bond(
            id,
        ).status == BondStatus::Active {
            Some(BondError::AlreadyRedeemed)
        } else {
            Some(BondError::BondNotActive)
        }),
{
    let m2 = m.after_redeem(id, period);
    let last = m.redemptions.len() as int;
    assert(m2.redemptions[last].bond_id == id);
    assert(m2.redemptions[last].period == period);
}

/// What a redemption records is what a later lookup of that bond and period gives back:
/// the attested revenue and the amount paid.
pub proof fn law_redeem_then_lookup(m: ContractModel, id: u64, period: Seq<char>)
    requires
        m.wf(),
        m.redeem_error(id, period) is None,
    ensures
        m.after_redeem(id, period).redemption_of(id, period) == Some(
            RecordModel {
                bond_id: id,
                period,
                attested_revenue: m.attested(id, period).unwrap(),
                redemption_amount: m.redeem_amount(id, period) as i128,
            },
        ),
{
    law_redeem_keeps_wf(m, id, period);
    law_period_redeemed_once(m, id, period);
    let m2 = m.after_redeem(id, period);
    let last = m.redemptions.len() as int;
    let k = choose|k: int|
        0 <= k < m2.redemptions.len() && #[trigger] m2.redemptions[k].bond_id == id
            && m2.redemptions[k].period == period;
    if k != last {
        assert(m2.redemptions[k].bond_id == m2.redemptions[last].bond_id);
    }
}

/// A bond that is no longer active stays so: no redemption, transfer or default changes
/// its status, and every redemption of it is refused.
pub proof fn law_inactive_is_terminal(m: ContractModel, id: u64, other: u64, period: Seq<char>, to: Seq<char>)
    requires
        m.wf(),
        m.has_bond(id),
        m.bond(id).status != BondStatus::Active,
    ensures
        m.redeem_error(id, period) == Some(BondError::BondNotActive),
        m.redeem_error(other, period) is None ==> m.after_redeem(other, period).bond(id).status
            == m.bond(id).status,
        m.has_bond(other) ==> m.after_transfer(other, to).bond(id).status == m.bond(id).status,
        m.default_error(to, id) is Some,
{
}

/// Redemptions are paid to whoever owns the bond at the time: after a transfer to `to`,
/// the next redemption pays `to`, from the issuer, in the bond's token.
pub proof fn law_payment_follows_owner(m: ContractModel, id: u64, from: Seq<char>, to: Seq<char>, period: Seq<char>)
    requires
        m.wf(),
        m.transfer_error(id, from) is None,
    ensures
        m.after_transfer(id, to).redeem_payment(id, period).to == to,
        m.after_transfer(id, to).redeem_payment(id, period).from == m.bond(id).issuer,
        m.after_transfer(id, to).redeem_payment(id, period).token == m.bond(id).token,
        m.after_transfer(id, to).redeem_error(id, period) == m.redeem_error(id, period),
{
    let m2 = m.after_transfer(id, to);
    assert forall|j: int| 0 <= j < m.redemptions.len() implies m2.redemptions[j] == m.redemptions[j] by {}
    assert(m2.is_redeemed(id, period) == m.is_redeemed(id, period));
}

/// A newly issued bond is active, has paid nothing, and has its whole face value remaining;
/// the bonds issued before it are untouched.
pub proof fn law_issue_starts_fresh(
    m: ContractModel,
    issuer: Seq<char>,
    owner: Seq<char>,
    terms: TermsModel,
    attestation: Seq<char>,
    token: Seq<char>,
)
    requires
        m.wf(),
        m.bonds.len() < u64::MAX,
        issue_error(issuer, owner, terms) is None,
    ensures
        ({
            let m2 = m.after_issue(issuer, owner, terms, attestation, token);
            let id = m.bonds.len() as u64;
            &&& m2.has_bond(id)
            &&& m2.bond(id).status == BondStatus::Active
            &&& m2.total_redeemed(id) == 0
            &&& m2.remaining(id) == terms.face_value
            &&& m2.bond(id).owner == owner
            &&& m2.bond(id).issuer == issuer
        }),
        forall|other: u64|
            #![trigger m.bonds[other as int]]
            other < m.bonds.len() ==> m.after_issue(issuer, owner, terms, attestation, token).bond(other)
                == m.bond(other),
{
}

/// The hybrid payment is the fixed minimum plus `revenue * bps / 10000`, and exactly the
/// per-period maximum whenever that sum exceeds it (no saturation is involved while
/// `revenue * bps` fits in an `i128`).
pub proof fn law_hybrid_payment_formula(revenue: int, bps: int, min_payment: int, max_payment: int)
    requires
        revenue >= 0,
        bps >= 0,
        revenue * bps <= i128::MAX,
        min_payment >= 0,
        max_payment <= i128::MAX,
    ensures
        min_payment + (revenue * bps) / 10000 > max_payment ==> hybrid_payment(revenue, bps, min_payment, max_payment)
            == max_payment,
        min_payment + (revenue * bps) / 10000 <= max_payment ==> hybrid_payment(revenue, bps, min_payment, max_payment)
            == min_payment + (revenue * bps) / 10000,
{
    assert(revenue * bps >= 0) by (nonlinear_arith)
        requires
            revenue >= 0,
            bps >= 0,
    ;
}

/// One redemption of a consistent bond pays the hybrid payment of the attested revenue,
/// and only when that exceeds what is left of the face value does it pay what is left.
pub proof fn law_bond_redeem_amount(b: BondModel, revenue: int)
    requires
        bond_consistent(b),
        revenue >= 0,
    ensures
        ({
            let hp = hybrid_payment(
                revenue,
                b.terms.revenue_share_bps as int,
                b.terms.min_payment_per_period as int,
                b.terms.max_payment_per_period as int,
            );
            let rem = b.terms.face_value - b.total_redeemed;
            &&& hp <= rem ==> bond_redeem_amount(b, revenue) == hp
            &&& hp > rem ==> bond_redeem_amount(b, revenue) == rem
        }),
        revenue * b.terms.revenue_share_bps <= i128::MAX ==> {
            let exact = b.terms.min_payment_per_period + (revenue * b.terms.revenue_share_bps) / 10000;
            let rem = b.terms.face_value - b.total_redeemed;
            &&& (exact <= b.terms.max_payment_per_period && exact <= rem) ==> bond_redeem_amount(b, revenue)
                == exact
            &&& (b.terms.max_payment_per_period < exact && b.terms.max_payment_per_period <= rem)
                ==> bond_redeem_amount(b, revenue) == b.terms.max_payment_per_period
            &&& (rem < exact && rem < b.terms.max_payment_per_period) ==> bond_redeem_amount(b, revenue) == rem
        },
{
    if revenue * b.terms.revenue_share_bps <= i128::MAX {
        law_hybrid_payment_formula(
            revenue,
            b.terms.revenue_share_bps as int,
            b.terms.min_payment_per_period as int,
            b.terms.max_payment_per_period as int,
        );
    }
}

/// A redemption that is not refused pays the hybrid payment of the revenue attested for the
/// issuer in that period, capped only by what is left of the face value; the total paid grows
/// by that amount and the bond stays active unless the face value is reached.
pub proof fn law_redeem_pays_hybrid_payment(m: ContractModel, id: u64, period: Seq<char>)
    requires
        m.wf(),
        m.redeem_error(id, period) is None,
    ensures
        ({
            let b = m.bond(id);
            let revenue = m.attested(id, period).unwrap() as int;
            let hp = hybrid_payment(
                revenue,
                b.terms.revenue_share_bps as int,
                b.terms.min_payment_per_period as int,
                b.terms.max_payment_per_period as int,
            );
            let rem = b.terms.face_value - b.total_redeemed;
            let m2 = m.after_redeem(id, period);
            &&& hp <= rem ==> m.redeem_amount(id, period) == hp
            &&& hp > rem ==> m.redeem_amount(id, period) == rem
            &&& m2.bond(id).total_redeemed == b.total_redeemed + m.redeem_amount(id, period)
            &&& (hp < rem ==> m2.bond(id).status == BondStatus::Active)
            &&& (hp >= rem ==> m2.bond(id).status == BondStatus::FullyRedeemed)
            &&& m.redeem_payment(id, period).amount == m.redeem_amount(id, period)
            &&& m.redeem_payment(id, period).to == b.owner
            &&& m.redeem_payment(id, period).from == b.issuer
        }),
{
    assert(m.bond_wf(id as int));
    law_bond_redeem_amount(m.bond(id), m.attested(id, period).unwrap() as int);
    law_redeem_amount_bounds(m, id, period);
}

/// A redemption is refused only for a reason: it succeeds whenever the bond exists, is
/// active, has not been redeemed for the period, and non-negative revenue is attested for
/// its issuer in that period.
pub proof fn law_redeem_succeeds_when_allowed(m: ContractModel, id: u64, period: Seq<char>)
    requires
        id < m.bonds.len(),
        m.bonds[id as int].status == BondStatus::Active,
        forall|j: int|
            0 <= j < m.redemptions.len() ==> !(#[trigger] m.redemptions[j].bond_id == id
                && m.redemptions[j].period == period),
        m.revenues.contains_key((m.bonds[id as int].issuer, period)),
        m.revenues[(m.bonds[id as int].issuer, period)] >= 0,
    ensures
        m.redeem_error(id, period) is None,
        bond_redeem_error(m.bonds[id as int], false, Some(m.revenues[(m.bonds[id as int].issuer, period)])) is None,
{
}

/// Looking up a bond's redemption for a period gives a record exactly when that bond was
/// redeemed for that period, and then a record of that bond, for that period, that was made.
pub proof fn law_redemption_lookup(m: ContractModel, id: u64, period: Seq<char>)
    ensures
        m.redemption_of(id, period) is Some <==> (exists|j: int|
            0 <= j < m.redemptions.len() && #[trigger] m.redemptions[j].bond_id == id
                && m.redemptions[j].period == period),
        m.redemption_of(id, period) matches Some(r) ==> {
            &&& r.bond_id == id
            &&& r.period == period
            &&& exists|j: int| 0 <= j < m.redemptions.len() && #[trigger] m.redemptions[j] == r
        },
{
    if m.is_redeemed(id, period) {
        let j = choose|j: int|
            0 <= j < m.redemptions.len() && #[trigger] m.redemptions[j].bond_id == id
                && m.redemptions[j].period == period;
        assert(m.redemptions[j] == m.redemption_of(id, period).unwrap());
    }
}

/// The current owner can always hand a bond on, and only the owner changes.
pub proof fn law_owner_may_transfer(m: ContractModel, id: u64, to: Seq<char>)
    requires
        id < m.bonds.len(),
    ensures
        m.transfer_error(id, m.bonds[id as int].owner) is None,
        bond_transfer_error(m.bonds[id as int], m.bonds[id as int].owner) is None,
        forall|from: Seq<char>| from != m.bonds[id as int].owner ==> #[trigger] m.transfer_error(id, from)
            == Some(BondError::NotOwner),
        m.after_transfer(id, to).bond(id).owner == to,
        m.after_transfer(id, to).bond(id).issuer == m.bond(id).issuer,
        m.after_transfer(id, to).bond(id).status == m.bond(id).status,
        m.after_transfer(id, to).bond(id).total_redeemed == m.bond(id).total_redeemed,
{
}

/// The administrator can mark any existing active bond defaulted, whatever it has paid;
/// afterwards it is defaulted and refuses redemption.
pub proof fn law_admin_may_default_active(m: ContractModel, caller: Seq<char>, id: u64, period: Seq<char>)
    requires
        m.admin == Some(caller),
        id < m.bonds.len(),
        m.bonds[id as int].status == BondStatus::Active,
    ensures
        m.default_error(caller, id) is None,
        bond_default_error(m.bonds[id as int]) is None,
        m.after_default(id).bond(id).status == BondStatus::Defaulted,
        m.after_default(id).bond(id).total_redeemed == m.bond(id).total_redeemed,
        m.after_default(id).redeem_error(id, period) == Some(BondError::BondNotActive),
{
}

/// Terms are accepted exactly when issuer and owner differ, the face value is positive, the
/// per-period minimum is non-negative and at most the maximum, and the share is at most
/// 10000 basis points.
pub proof fn law_issue_accepts_valid_terms(issuer: Seq<char>, owner: Seq<char>, terms: TermsModel)
    ensures
        issue_error(issuer, owner, terms) is None <==> (issuer != owner && terms.face_value > 0 && 0
            <= terms.min_payment_per_period && terms.min_payment_per_period <= terms.max_payment_per_period
            && terms.revenue_share_bps <= 10000),
{
}

/// The first initialization sets the administrator; any later one is refused.
pub proof fn law_initialize_once(m: ContractModel, admin: Seq<char>, again: Seq<char>)
    requires
        m.admin is None,
    ensures
        m.initialize_error() is None,
        m.after_initialize(admin).admin == Some(admin),
        m.after_initialize(admin).bonds == m.bonds,
        m.after_initialize(admin).initialize_error() == Some(BondError::AlreadyInitialized),
{
}

/// Attesting revenue sets the value read back for that business and period, and leaves the
/// value for every other business and period as it was.
pub proof fn law_attest_then_read(
    m: ContractModel,
    business: Seq<char>,
    period: Seq<char>,
    revenue: i128,
    other_business: Seq<char>,
    other_period: Seq<char>,
)
    ensures
        m.after_attest(business, period, revenue).revenues.contains_key((business, period)),
        m.after_attest(business, period, revenue).revenues[(business, period)] == revenue,
        (other_business, other_period) != (business, period) ==> {
            &&& m.after_attest(business, period, revenue).revenues.contains_key((other_business, other_period))
                == m.revenues.contains_key((other_business, other_period))
            &&& m.after_attest(business, period, revenue).revenues[(other_business, other_period)]
                == m.revenues[(other_business, other_period)]
        },
        m.after_attest(business, period, revenue).bonds == m.bonds,
        m.after_attest(business, period, revenue).redemptions == m.redemptions,
{
}

/// Why an active bond that was not yet redeemed for a period is refused: with no revenue
/// attested for its issuer in that period, or with negative revenue attested.
pub proof fn law_redeem_refusals(m: ContractModel, id: u64, period: Seq<char>)
    requires
        id < m.bonds.len(),
        m.bonds[id as int].status == BondStatus::Active,
        forall|j: int|
            0 <= j < m.redemptions.len() ==> !(#[trigger] m.redemptions[j].bond_id == id
                && m.redemptions[j].period == period),
    ensures
        !m.revenues.contains_key((m.bonds[id as int].issuer, period)) ==> m.redeem_error(id, period)
            == Some(BondError::RevenueNotAttested),
        m.revenues.contains_key((m.bonds[id as int].issuer, period)) && m.revenues[(
        m.bonds[id as int].issuer, period)] < 0 ==> m.redeem_error(id, period) == Some(
            BondError::NegativeRevenue,
        ),
{
}

} // verus!
