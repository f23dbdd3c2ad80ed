use revenue_bonds::contract::RevenueBondContract;
use revenue_bonds::types::{Address, BondError, BondStatus, BondStructure, BondTerms};

fn addr(key: &str) -> Address {
    Address::new(key.to_string())
}

fn ok<T>(r: Result<T, BondError>) -> T {
    match r {
        Ok(v) => v,
        Err(e) => panic!("{}", e.message()),
    }
}

fn setup() -> (RevenueBondContract, Address, Address, Address, Address, Address) {
    let c = RevenueBondContract::new();
    (c, addr("admin"), addr("issuer"), addr("owner"), addr("token"), addr("attestation"))
}

fn set_mock_revenue(c: &mut RevenueBondContract, business: &Address, period: &str, revenue: i128) {
    c.set_attested_revenue(business.clone(), period.to_string(), revenue);
}

#[allow(clippy::too_many_arguments)]
fn issue_hybrid(
    c: &mut RevenueBondContract,
    issuer: &Address,
    owner: &Address,
    face_value: i128,
    revenue_share_bps: u32,
    min_payment: i128,
    max_payment: i128,
    maturity: u32,
    attestation: &Address,
    token: &Address,
) -> u64 {
    ok(c.issue_hybrid(
        issuer.clone(),
        owner.clone(),
        face_value,
        revenue_share_bps,
        min_payment,
        max_payment,
        maturity,
        attestation.clone(),
        token.clone(),
    ))
}

fn redeem(c: &mut RevenueBondContract, id: u64, period: &str) {
    ok(c.redeem(id, &period.to_string()));
}

fn amount_of(c: &RevenueBondContract, id: u64, period: &str) -> i128 {
    c.get_redemption(id, &period.to_string()).unwrap().redemption_amount
}

#[test]
fn test_hybrid_revenue_spike_capped_at_max() {
    let (mut c, admin, issuer, owner, token, attestation) = setup();
    ok(c.initialize(admin));
    let id = issue_hybrid(&mut c, &issuer, &owner, 10_000_000, 1000, 200_000, 800_000, 24, &attestation, &token);
    set_mock_revenue(&mut c, &issuer, "2026-02", 10_000_000);
    redeem(&mut c, id, "2026-02");
    assert_eq!(amount_of(&c, id, "2026-02"), 800_000);
}

#[test]
fn test_hybrid_spike_multi_period_face_value_cap() {
    let (mut c, admin, issuer, owner, token, attestation) = setup();
    ok(c.initialize(admin));
    let id = issue_hybrid(&mut c, &issuer, &owner, 1_500_000, 1000, 200_000, 800_000, 24, &attestation, &token);
    set_mock_revenue(&mut c, &issuer, "2026-02", 10_000_000);
    redeem(&mut c, id, "2026-02");
    set_mock_revenue(&mut c, &issuer, "2026-03", 10_000_000);
    redeem(&mut c, id, "2026-03");
    let bond = c.get_bond(id).unwrap();
    assert_eq!(bond.status, BondStatus::FullyRedeemed);
    assert_eq!(c.get_total_redeemed(id), 1_500_000);
    assert_eq!(amount_of(&c, id, "2026-03"), 700_000);
}

#[test]
fn test_hybrid_extreme_revenue_saturating_arithmetic() {
    let (mut c, admin, issuer, owner, token, attestation) = setup();
    ok(c.initialize(admin));
    let id = issue_hybrid(&mut c, &issuer, &owner, 5_000_000, 500, 100_000, 1_000_000, 24, &attestation, &token);
    set_mock_revenue(&mut c, &issuer, "2026-02", i128::MAX);
    redeem(&mut c, id, "2026-02");
    assert_eq!(amount_of(&c, id, "2026-02"), 1_000_000);
}

#[test]
fn test_hybrid_zero_revenue_pays_min_only() {
    let (mut c, admin, issuer, owner, token, attestation) = setup();
    ok(c.initialize(admin));
    let id = issue_hybrid(&mut c, &issuer, &owner, 5_000_000, 1000, 200_000, 800_000, 24, &attestation, &token);
    set_mock_revenue(&mut c, &issuer, "2026-02", 0);
    redeem(&mut c, id, "2026-02");
    assert_eq!(amount_of(&c, id, "2026-02"), 200_000);
    assert_eq!(c.get_total_redeemed(id), 200_000);
}

#[test]
fn test_hybrid_min_fixed_not_double_paid_across_periods() {
    let (mut c, admin, issuer, owner, token, attestation) = setup();
    ok(c.initialize(admin));
    let id = issue_hybrid(&mut c, &issuer, &owner, 600_000, 1000, 200_000, 800_000, 24, &attestation, &token);
    let periods = ["2026-02", "2026-03", "2026-04"];
    for p in periods {
        set_mock_revenue(&mut c, &issuer, p, 0);
        redeem(&mut c, id, p);
    }
    assert_eq!(c.get_total_redeemed(id), 600_000);
    let bond = c.get_bond(id).unwrap();
    assert_eq!(bond.status, BondStatus::FullyRedeemed);
}

#[test]
fn test_hybrid_collapse_after_spike_caps_correctly() {
    let (mut c, admin, issuer, owner, token, attestation) = setup();
    ok(c.initialize(admin));
    let id = issue_hybrid(&mut c, &issuer, &owner, 1_000_000, 500, 100_000, 600_000, 24, &attestation, &token);
    set_mock_revenue(&mut c, &issuer, "2026-02", 8_000_000);
    redeem(&mut c, id, "2026-02");
    assert_eq!(c.get_total_redeemed(id), 500_000);
    set_mock_revenue(&mut c, &issuer, "2026-03", 0);
    redeem(&mut c, id, "2026-03");
    assert_eq!(c.get_total_redeemed(id), 600_000);
    set_mock_revenue(&mut c, &issuer, "2026-04", 0);
    redeem(&mut c, id, "2026-04");
    assert_eq!(c.get_total_redeemed(id), 700_000);
    let bond = c.get_bond(id).unwrap();
    assert_eq!(bond.status, BondStatus::Active);
    assert_eq!(c.get_remaining_value(id), 300_000);
}

#[test]
fn test_hybrid_revenue_component_equals_min_no_double_count() {
    let (mut c, admin, issuer, owner, token, attestation) = setup();
    ok(c.initialize(admin));
    let id = issue_hybrid(&mut c, &issuer, &owner, 5_000_000, 1000, 200_000, 800_000, 24, &attestation, &token);
    set_mock_revenue(&mut c, &issuer, "2026-02", 2_000_000);
    redeem(&mut c, id, "2026-02");
    assert_eq!(amount_of(&c, id, "2026-02"), 400_000);
}

#[test]
#[should_panic(expected = "already redeemed for period")]
fn test_hybrid_double_spend_same_period_panics() {
    let (mut c, admin, issuer, owner, token, attestation) = setup();
    ok(c.initialize(admin));
    let id = issue_hybrid(&mut c, &issuer, &owner, 5_000_000, 1000, 200_000, 800_000, 24, &attestation, &token);
    set_mock_revenue(&mut c, &issuer, "2026-02", 3_000_000);
    redeem(&mut c, id, "2026-02");
    set_mock_revenue(&mut c, &issuer, "2026-02", 0);
    redeem(&mut c, id, "2026-02");
}

#[test]
#[should_panic(expected = "already redeemed for period")]
fn test_hybrid_double_spend_zero_after_spike_panics() {
    let (mut c, admin, issuer, owner, token, attestation) = setup();
    ok(c.initialize(admin));
    let id = issue_hybrid(&mut c, &issuer, &owner, 5_000_000, 1000, 200_000, 800_000, 24, &attestation, &token);
    set_mock_revenue(&mut c, &issuer, "2026-03", 10_000_000);
    redeem(&mut c, id, "2026-03");
    set_mock_revenue(&mut c, &issuer, "2026-03", 0);
    redeem(&mut c, id, "2026-03");
}

#[test]
fn test_hybrid_attestation_present_succeeds() {
    let (mut c, admin, issuer, owner, token, attestation) = setup();
    ok(c.initialize(admin));
    let id = issue_hybrid(&mut c, &issuer, &owner, 5_000_000, 1000, 200_000, 800_000, 24, &attestation, &token);
    set_mock_revenue(&mut c, &issuer, "2026-02", 1_000_000);
    redeem(&mut c, id, "2026-02");
    assert_eq!(amount_of(&c, id, "2026-02"), 300_000);
}

#[test]
fn test_hybrid_payment_routes_to_current_owner_after_transfer() {
    let (mut c, admin, issuer, owner, token, attestation) = setup();
    ok(c.initialize(admin));
    let id = issue_hybrid(&mut c, &issuer, &owner, 5_000_000, 1000, 200_000, 800_000, 24, &attestation, &token);
    set_mock_revenue(&mut c, &issuer, "2026-02", 5_000_000);
    redeem(&mut c, id, "2026-02");
    assert_eq!(c.get_owner(id).unwrap(), owner);
    let new_owner = addr("new_owner");
    ok(c.transfer_ownership(id, &owner, new_owner.clone()));
    assert_eq!(c.get_owner(id).unwrap(), new_owner);
    set_mock_revenue(&mut c, &issuer, "2026-03", 0);
    redeem(&mut c, id, "2026-03");
    assert_eq!(amount_of(&c, id, "2026-03"), 200_000);
}

#[test]
fn test_hybrid_exact_face_value_exhaustion() {
    let (mut c, admin, issuer, owner, token, attestation) = setup();
    ok(c.initialize(admin));
    let id = issue_hybrid(&mut c, &issuer, &owner, 500_000, 1000, 200_000, 500_000, 24, &attestation, &token);
    set_mock_revenue(&mut c, &issuer, "2026-02", 3_000_000);
    redeem(&mut c, id, "2026-02");
    let bond = c.get_bond(id).unwrap();
    assert_eq!(bond.status, BondStatus::FullyRedeemed);
    assert_eq!(c.get_total_redeemed(id), 500_000);
    assert_eq!(c.get_remaining_value(id), 0);
}

#[test]
#[should_panic(expected = "bond not active")]
fn test_hybrid_redeem_after_fully_redeemed_panics() {
    let (mut c, admin, issuer, owner, token, attestation) = setup();
    ok(c.initialize(admin));
    let id = issue_hybrid(&mut c, &issuer, &owner, 300_000, 1000, 200_000, 500_000, 24, &attestation, &token);
    set_mock_revenue(&mut c, &issuer, "2026-02", 0);
    redeem(&mut c, id, "2026-02");
    set_mock_revenue(&mut c, &issuer, "2026-03", 0);
    redeem(&mut c, id, "2026-03");
    redeem(&mut c, id, "2026-04");
}

#[test]
fn test_hybrid_zero_share_bps_equals_fixed_behavior() {
    let (mut c, admin, issuer, owner, token, attestation) = setup();
    ok(c.initialize(admin));
    let id = ok(c.issue_bond(
        issuer.clone(),
        owner.clone(),
        BondTerms {
            face_value: 2_000_000,
            structure: BondStructure::Hybrid,
            revenue_share_bps: 0,
            min_payment_per_period: 300_000,
            max_payment_per_period: 300_000,
            maturity_periods: 12,
            grace_period_seconds: 0,
            issue_period: "2026-01".to_string(),
        },
        attestation.clone(),
        token.clone(),
    ));
    set_mock_revenue(&mut c, &issuer, "2026-02", 50_000_000);
    redeem(&mut c, id, "2026-02");
    assert_eq!(amount_of(&c, id, "2026-02"), 300_000);
}

#[test]
fn test_hybrid_max_share_bps_formula() {
    let (mut c, admin, issuer, owner, token, attestation) = setup();
    ok(c.initialize(admin));
    let id = ok(c.issue_bond(
        issuer.clone(),
        owner.clone(),
        BondTerms {
            face_value: 10_000_000,
            structure: BondStructure::Hybrid,
            revenue_share_bps: 10000,
            min_payment_per_period: 100_000,
            max_payment_per_period: 2_000_000,
            maturity_periods: 24,
            grace_period_seconds: 0,
            issue_period: "2026-01".to_string(),
        },
        attestation.clone(),
        token.clone(),
    ));
    set_mock_revenue(&mut c, &issuer, "2026-02", 500_000);
    redeem(&mut c, id, "2026-02");
    assert_eq!(amount_of(&c, id, "2026-02"), 600_000);
}

#[test]
#[should_panic(expected = "issuer and owner must differ")]
fn test_hybrid_issuer_equals_owner_panics() {
    let (mut c, admin, issuer, _, token, attestation) = setup();
    ok(c.initialize(admin));
    ok(c.issue_bond(
        issuer.clone(),
        issuer.clone(),
        BondTerms {
            face_value: 1_000_000,
            structure: BondStructure::Hybrid,
            revenue_share_bps: 500,
            min_payment_per_period: 100_000,
            max_payment_per_period: 500_000,
            maturity_periods: 12,
            grace_period_seconds: 0,
            issue_period: "2026-01".to_string(),
        },
        attestation.clone(),
        token.clone(),
    ));
}

#[test]
#[should_panic(expected = "max must be >= min")]
fn test_hybrid_invalid_payment_range_panics() {
    let (mut c, admin, issuer, owner, token, attestation) = setup();
    ok(c.initialize(admin));
    ok(c.issue_bond(
        issuer.clone(),
        owner.clone(),
        BondTerms {
            face_value: 1_000_000,
            structure: BondStructure::Hybrid,
            revenue_share_bps: 500,
            min_payment_per_period: 500_000,
            max_payment_per_period: 100_000,
            maturity_periods: 12,
            grace_period_seconds: 0,
            issue_period: "2026-01".to_string(),
        },
        attestation.clone(),
        token.clone(),
    ));
}

#[test]
#[should_panic(expected = "attested_revenue must be non-negative")]
fn test_hybrid_negative_revenue_panics() {
    let (mut c, admin, issuer, owner, token, attestation) = setup();
    ok(c.initialize(admin));
    let id = issue_hybrid(&mut c, &issuer, &owner, 5_000_000, 1000, 200_000, 800_000, 24, &attestation, &token);
    set_mock_revenue(&mut c, &issuer, "2026-02", -1);
    redeem(&mut c, id, "2026-02");
}

#[test]
#[should_panic(expected = "bond not active")]
fn test_hybrid_defaulted_bond_rejects_redemption() {
    let (mut c, admin, issuer, owner, token, attestation) = setup();
    ok(c.initialize(admin.clone()));
    let id = issue_hybrid(&mut c, &issuer, &owner, 5_000_000, 1000, 200_000, 800_000, 24, &attestation, &token);
    ok(c.mark_defaulted(&admin, id));
    redeem(&mut c, id, "2026-02");
}

#[test]
fn test_hybrid_remaining_value_monotonically_decreasing() {
    let (mut c, admin, issuer, owner, token, attestation) = setup();
    ok(c.initialize(admin));
    let id = issue_hybrid(&mut c, &issuer, &owner, 2_000_000, 500, 100_000, 500_000, 24, &attestation, &token);
    let revenues: [i128; 5] = [0, 10_000_000, 0, 5_000_000, 0];
    let periods = ["2026-02", "2026-03", "2026-04", "2026-05", "2026-06"];
    let mut prev_remaining = c.get_remaining_value(id);
    for (rev, period_str) in revenues.iter().zip(periods.iter()) {
        set_mock_revenue(&mut c, &issuer, period_str, *rev);
        redeem(&mut c, id, period_str);
        let remaining = c.get_remaining_value(id);
        assert!(remaining <= prev_remaining, "remaining_value must not increase");
        assert!(remaining >= 0, "remaining_value must not go negative");
        prev_remaining = remaining;
    }
}
