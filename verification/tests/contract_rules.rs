use revenue_bonds::contract::RevenueBondContract;
use revenue_bonds::payment::compute_hybrid_payment;
use revenue_bonds::types::{Address, BondError, BondStatus, BondStructure, BondTerms};

fn addr(key: &str) -> Address {
    Address::new(key.to_string())
}

fn terms(face: i128, bps: u32, min: i128, max: i128) -> BondTerms {
    BondTerms {
        face_value: face,
        structure: BondStructure::Hybrid,
        revenue_share_bps: bps,
        min_payment_per_period: min,
        max_payment_per_period: max,
        maturity_periods: 12,
        grace_period_seconds: 0,
        issue_period: "2026-01".to_string(),
    }
}

fn fresh() -> RevenueBondContract {
    let mut c = RevenueBondContract::new();
    c.initialize(addr("admin")).unwrap();
    c
}

fn issue(c: &mut RevenueBondContract, t: BondTerms) -> Result<u64, BondError> {
    c.issue_bond(addr("issuer"), addr("owner"), t, addr("attestation"), addr("token"))
}

fn p(s: &str) -> String {
    s.to_string()
}

#[test]
fn hybrid_formula_exact_values() {
    assert_eq!(compute_hybrid_payment(1_000_000, 1000, 200_000, 800_000), 300_000);
    assert_eq!(compute_hybrid_payment(2_000_000, 1000, 200_000, 800_000), 400_000);
    assert_eq!(compute_hybrid_payment(10_000_000, 1000, 200_000, 800_000), 800_000);
    assert_eq!(compute_hybrid_payment(0, 1000, 200_000, 800_000), 200_000);
    // share is truncated toward zero: 9_999 * 1 / 10_000 == 0
    assert_eq!(compute_hybrid_payment(9_999, 1, 5, 100), 5);
}

#[test]
fn hybrid_formula_saturates() {
    assert_eq!(compute_hybrid_payment(i128::MAX, 10000, 0, i128::MAX), i128::MAX / 10000);
    assert_eq!(compute_hybrid_payment(i128::MAX, 10000, i128::MAX - 1, i128::MAX), i128::MAX);
}

#[test]
fn zero_share_is_minimum() {
    assert_eq!(compute_hybrid_payment(123_456_789, 0, 42, 1_000), 42);
}

#[test]
fn initialize_twice_is_refused() {
    let mut c = fresh();
    assert_eq!(c.initialize(addr("other")), Err(BondError::AlreadyInitialized));
}

#[test]
fn default_needs_admin() {
    let mut c = RevenueBondContract::new();
    let id = issue(&mut c, terms(1_000, 0, 10, 10)).unwrap();
    assert_eq!(c.mark_defaulted(&addr("admin"), id), Err(BondError::NotInitialized));
    c.initialize(addr("admin")).unwrap();
    assert_eq!(c.mark_defaulted(&addr("someone"), id), Err(BondError::Unauthorized));
    assert_eq!(c.mark_defaulted(&addr("admin"), id + 1), Err(BondError::BondNotFound));
    assert_eq!(c.mark_defaulted(&addr("admin"), id), Ok(()));
    assert_eq!(c.mark_defaulted(&addr("admin"), id), Err(BondError::BondNotActive));
    assert_eq!(c.get_bond(id).unwrap().status, BondStatus::Defaulted);
}

#[test]
fn issue_validation_errors() {
    let mut c = fresh();
    assert_eq!(issue(&mut c, terms(0, 0, 0, 0)), Err(BondError::InvalidFaceValue));
    assert_eq!(issue(&mut c, terms(10, 0, -1, 5)), Err(BondError::NegativeMinPayment));
    assert_eq!(issue(&mut c, terms(10, 0, 6, 5)), Err(BondError::InvalidPaymentRange));
    assert_eq!(issue(&mut c, terms(10, 10001, 1, 5)), Err(BondError::InvalidShareBps));
    assert_eq!(
        c.issue_bond(addr("x"), addr("x"), terms(10, 0, 1, 5), addr("a"), addr("t")),
        Err(BondError::IssuerIsOwner)
    );
    assert!(c.get_bond(0).is_none());
}

#[test]
fn ids_are_sequential_and_fresh_bonds_are_whole() {
    let mut c = fresh();
    assert_eq!(issue(&mut c, terms(1_000, 0, 10, 10)), Ok(0));
    assert_eq!(issue(&mut c, terms(2_000, 0, 10, 10)), Ok(1));
    let b = c.get_bond(1).unwrap();
    assert_eq!(b.id, 1);
    assert_eq!(b.status, BondStatus::Active);
    assert_eq!(c.get_total_redeemed(1), 0);
    assert_eq!(c.get_remaining_value(1), 2_000);
    assert_eq!(c.get_owner(1).unwrap(), addr("owner"));
}

#[test]
fn unknown_bond_reads_as_empty() {
    let mut c = fresh();
    assert!(c.get_bond(7).is_none());
    assert!(c.get_owner(7).is_none());
    assert_eq!(c.get_total_redeemed(7), 0);
    assert_eq!(c.get_remaining_value(7), 0);
    assert_eq!(c.redeem(7, &p("2026-02")).err(), Some(BondError::BondNotFound));
    assert_eq!(
        c.transfer_ownership(7, &addr("owner"), addr("x")),
        Err(BondError::BondNotFound)
    );
}

#[test]
fn missing_attestation_is_refused_and_changes_nothing() {
    let mut c = fresh();
    let id = issue(&mut c, terms(1_000, 0, 10, 10)).unwrap();
    c.set_attested_revenue(addr("someone_else"), p("2026-02"), 5);
    assert_eq!(c.redeem(id, &p("2026-02")).err(), Some(BondError::RevenueNotAttested));
    assert!(c.get_redemption(id, &p("2026-02")).is_none());
    assert_eq!(c.get_total_redeemed(id), 0);
}

#[test]
fn later_attestation_wins() {
    let mut c = fresh();
    let id = issue(&mut c, terms(10_000_000, 10000, 0, 10_000_000)).unwrap();
    c.set_attested_revenue(addr("issuer"), p("2026-02"), 5);
    c.set_attested_revenue(addr("issuer"), p("2026-03"), 9);
    c.set_attested_revenue(addr("issuer"), p("2026-02"), 70_000);
    let pay = c.redeem(id, &p("2026-02")).unwrap();
    assert_eq!(pay.amount, 70_000);
    let rec = c.get_redemption(id, &p("2026-02")).unwrap();
    assert_eq!(rec.attested_revenue, 70_000);
    assert_eq!(rec.redemption_amount, 70_000);
    assert_eq!(rec.period, p("2026-02"));
    assert_eq!(rec.bond_id, id);
}

#[test]
fn payment_goes_from_issuer_to_current_owner() {
    let mut c = fresh();
    let id = issue(&mut c, terms(1_000_000, 0, 100, 100)).unwrap();
    c.set_attested_revenue(addr("issuer"), p("2026-02"), 0);
    c.set_attested_revenue(addr("issuer"), p("2026-03"), 0);
    let first = c.redeem(id, &p("2026-02")).unwrap();
    assert_eq!(first.to, addr("owner"));
    assert_eq!(first.from, addr("issuer"));
    assert_eq!(first.token, addr("token"));
    assert_eq!(
        c.transfer_ownership(id, &addr("stranger"), addr("thief")),
        Err(BondError::NotOwner)
    );
    c.transfer_ownership(id, &addr("owner"), addr("buyer")).unwrap();
    assert_eq!(c.get_total_redeemed(id), 100);
    let second = c.redeem(id, &p("2026-03")).unwrap();
    assert_eq!(second.to, addr("buyer"));
    assert_eq!(second.amount, 100);
}

#[test]
fn redeemed_period_is_refused_while_other_bonds_proceed() {
    let mut c = fresh();
    let a = issue(&mut c, terms(1_000, 0, 100, 100)).unwrap();
    let b = issue(&mut c, terms(1_000, 0, 100, 100)).unwrap();
    c.set_attested_revenue(addr("issuer"), p("2026-02"), 0);
    c.redeem(a, &p("2026-02")).unwrap();
    assert_eq!(c.redeem(a, &p("2026-02")).err(), Some(BondError::AlreadyRedeemed));
    assert_eq!(c.redeem(b, &p("2026-02")).unwrap().amount, 100);
    assert_eq!(c.get_remaining_value(a), 900);
    assert_eq!(c.get_remaining_value(b), 900);
}

#[test]
fn inactive_bond_stays_inactive() {
    let mut c = fresh();
    let id = issue(&mut c, terms(100, 0, 100, 100)).unwrap();
    c.set_attested_revenue(addr("issuer"), p("2026-02"), 0);
    c.set_attested_revenue(addr("issuer"), p("2026-03"), 0);
    c.redeem(id, &p("2026-02")).unwrap();
    assert_eq!(c.get_bond(id).unwrap().status, BondStatus::FullyRedeemed);
    c.transfer_ownership(id, &addr("owner"), addr("buyer")).unwrap();
    assert_eq!(c.get_bond(id).unwrap().status, BondStatus::FullyRedeemed);
    assert_eq!(c.mark_defaulted(&addr("admin"), id), Err(BondError::BondNotActive));
    assert_eq!(c.redeem(id, &p("2026-03")).err(), Some(BondError::BondNotActive));
    assert_eq!(c.get_remaining_value(id), 0);
}

#[test]
fn error_messages() {
    assert_eq!(BondError::AlreadyRedeemed.message(), "already redeemed for period");
    assert_eq!(BondError::BondNotActive.message(), "bond not active");
    assert_eq!(BondError::IssuerIsOwner.message(), "issuer and owner must differ");
    assert_eq!(BondError::InvalidPaymentRange.message(), "max must be >= min");
    assert_eq!(BondError::NegativeRevenue.message(), "attested_revenue must be non-negative");
}

#[test]
fn parts_round_trip() {
    let mut c = fresh();
    let id = issue(&mut c, terms(1_000, 0, 100, 100)).unwrap();
    c.set_attested_revenue(addr("issuer"), p("2026-02"), 0);
    c.redeem(id, &p("2026-02")).unwrap();
    assert_eq!(c.bond_count(), 1);
    let (admin, bonds, records) = c.into_parts();
    assert_eq!(admin, Some(addr("admin")));
    let mut back = RevenueBondContract::from_parts(admin, bonds, records).unwrap();
    assert_eq!(back.get_total_redeemed(id), 100);
    assert_eq!(back.get_redemption(id, &p("2026-02")).unwrap().redemption_amount, 100);
    assert_eq!(back.redeem(id, &p("2026-02")).err(), Some(BondError::AlreadyRedeemed));
    // attested revenue is not part of the stored parts
    assert_eq!(back.redeem(id, &p("2026-03")).err(), Some(BondError::RevenueNotAttested));
}

#[test]
fn parts_breaking_the_invariant_are_refused() {
    let mut c = fresh();
    let id = issue(&mut c, terms(1_000, 0, 100, 100)).unwrap();
    c.set_attested_revenue(addr("issuer"), p("2026-02"), 0);
    c.redeem(id, &p("2026-02")).unwrap();
    let (admin, bonds, records) = c.into_parts();

    let mut wrong_total = bonds.clone();
    wrong_total[0].total_redeemed = 50;
    assert!(RevenueBondContract::from_parts(admin.clone(), wrong_total, records.clone()).is_none());

    let mut wrong_id = bonds.clone();
    wrong_id[0].id = 3;
    assert!(RevenueBondContract::from_parts(admin.clone(), wrong_id, records.clone()).is_none());

    let mut twice = records.clone();
    twice.push(records[0].clone());
    assert!(RevenueBondContract::from_parts(admin.clone(), bonds.clone(), twice).is_none());

    let mut orphan = records.clone();
    orphan[0].bond_id = 9;
    assert!(RevenueBondContract::from_parts(admin.clone(), bonds.clone(), orphan).is_none());

    let mut over = bonds.clone();
    over[0].total_redeemed = 1_001;
    assert!(RevenueBondContract::from_parts(admin.clone(), over, records.clone()).is_none());

    assert!(RevenueBondContract::from_parts(admin, bonds, records).is_some());
}

#[test]
fn issue_hybrid_uses_fixed_issue_period_and_no_grace() {
    let mut c = fresh();
    let id = c
        .issue_hybrid(addr("issuer"), addr("owner"), 5_000, 250, 10, 90, 36, addr("attestation"), addr("token"))
        .unwrap();
    let b = c.get_bond(id).unwrap();
    assert_eq!(b.terms.structure, BondStructure::Hybrid);
    assert_eq!(b.terms.face_value, 5_000);
    assert_eq!(b.terms.revenue_share_bps, 250);
    assert_eq!(b.terms.min_payment_per_period, 10);
    assert_eq!(b.terms.max_payment_per_period, 90);
    assert_eq!(b.terms.maturity_periods, 36);
    assert_eq!(b.terms.grace_period_seconds, 0);
    assert_eq!(b.terms.issue_period, p("2026-01"));
    assert_eq!(
        c.issue_hybrid(addr("issuer"), addr("owner"), 5_000, 250, 90, 10, 36, addr("a"), addr("t")),
        Err(BondError::InvalidPaymentRange)
    );
}
