use vstd::prelude::*;

use crate::laws::{
    law_attest_keeps_wf, law_default_keeps_wf, law_empty_is_wf, law_initialize_keeps_wf,
    law_issue_keeps_wf, law_redeem_keeps_wf, law_redemption_lookup, law_transfer_keeps_wf,
};
use crate::lifecycle::validate_issue;
use crate::model::{
    issue_error, lemma_redeemed_sum_prefix, lemma_redeemed_sum_step, redeemed_sum, ContractModel,
};
use crate::types::{
    Address, Bond, BondError, BondStatus, BondStructure, BondTerms, Payment, RecordModel,
    RedemptionRecord, TermsModel,
};

verus! {

/// One attestation of revenue for a business in a period.
struct AttestedRevenue {
    business: Address,
    period: String,
    revenue: i128,
}

/// The revenue attested so far: a later attestation of the same (business, period) wins.
spec fn revenue_map(log: Seq<AttestedRevenue>) -> Map<(Seq<char>, Seq<char>), i128>
    decreases log.len(),
{
    if log.len() == 0 {
        Map::empty()
    } else {
        revenue_map(log.drop_last()).insert(
            (log.last().business@, log.last().period@),
            log.last().revenue,
        )
    }
}

/// Entries after position `k` that do not name `key` do not change what is attested for it.
proof fn lemma_revenue_map_tail(log: Seq<AttestedRevenue>, k: int, key: (Seq<char>, Seq<char>))
    requires
        0 <= k <= log.len(),
        forall|j: int| k <= j < log.len() ==> (#[trigger] log[j].business@, log[j].period@) != key,
    ensures
        revenue_map(log).contains_key(key) == revenue_map(log.take(k)).contains_key(key),
        revenue_map(log).contains_key(key) ==> revenue_map(log)[key] == revenue_map(log.take(k))[key],
    decreases log.len(),
{
    if log.len() == k {
        assert(log.take(k) =~= log);
    } else {
        let init = log.drop_last();
        assert forall|j: int| k <= j < init.len() implies (#[trigger] init[j].business@, init[j].period@)
            != key by {
            assert(init[j] == log[j]);
        }
        lemma_revenue_map_tail(init, k, key);
        assert(init.take(k) =~= log.take(k));
    }
}

/// The state of a revenue-bond contract: its administrator, its bonds, the redemptions made
/// and the revenue attested for each business and period.
pub struct RevenueBondContract {
    admin: Option<Address>,
    bonds: Vec<Bond>,
    redemptions: Vec<RedemptionRecord>,
    revenues: Vec<AttestedRevenue>,
}

impl View for RevenueBondContract {
    type V = ContractModel;

    closed spec fn view(&self) -> ContractModel {
        ContractModel {
            admin: match self.admin {
                Some(a) => Some(a@),
                None => None,
            },
            bonds: self.bonds@.map_values(|b: Bond| b@),
            redemptions: self.redemptions@.map_values(|r: RedemptionRecord| r@),
            revenues: revenue_map(self.revenues@),
        }
    }
}

impl RevenueBondContract {
    /// A freshly deployed contract: no administrator, no bonds, nothing attested.
    pub fn new() -> (c: RevenueBondContract)
        ensures
            c@ == ContractModel::empty(),
            c@.wf(),
    {
        let c = RevenueBondContract {
            admin: None,
            bonds: Vec::new(),
            redemptions: Vec::new(),
            revenues: Vec::new(),
        };
        proof {
            law_empty_is_wf();
            assert(c@.bonds =~= Seq::empty());
            assert(c@.redemptions =~= Seq::empty());
            assert(c@.revenues =~= Map::empty());
        }
        c
    }

    /// Sets the administrator; refused once one is set.
    pub fn initialize(&mut self, admin: Address) -> (r: Result<(), BondError>)
        requires
            old(self)@.wf(),
        ensures
            final(self)@.wf(),
            match r {
                Ok(()) => old(self)@.initialize_error() is None && final(self)@ == old(self)@.after_initialize(admin@),
                Err(e) => old(self)@.initialize_error() == Some(e) && final(self)@ == old(self)@,
            },
    {
        if self.admin.is_some() {
            return Err(BondError::AlreadyInitialized);
        }
        proof {
            law_initialize_keeps_wf(self@, admin@);
        }
        self.admin = Some(admin);
        Ok(())
    }

    /// Records the revenue attested for `business` in `period`, replacing an earlier one.
    pub fn set_attested_revenue(&mut self, business: Address, period: String, revenue: i128)
        requires
            old(self)@.wf(),
        ensures
            final(self)@.wf(),
            final(self)@ == old(self)@.after_attest(business@, period@, revenue),
    {
        proof {
            law_attest_keeps_wf(self@, business@, period@, revenue);
        }
        let ghost old_log = self.revenues@;
        self.revenues.push(AttestedRevenue { business, period, revenue });
        proof {
            assert(self.revenues@.drop_last() =~= old_log);
        }
    }

    /// The revenue attested for `business` in `period`, if any.
    fn attested_revenue(&self, business: &Address, period: &String) -> (r: Option<i128>)
        ensures
            r == (if revenue_map(self.revenues@).contains_key((business@, period@)) {
                Some(revenue_map(self.revenues@)[(business@, period@)])
            } else {
                None
            }),
    {
        let ghost key = (business@, period@);
        let ghost log = self.revenues@;
        let mut i: usize = self.revenues.len();
        while i > 0
            invariant
                i <= log.len(),
                log == self.revenues@,
                key == (business@, period@),
                forall|j: int| i <= j < log.len() ==> (#[trigger] log[j].business@, log[j].period@) != key,
            decreases i,
        {
            i = i - 1;
            let e = &self.revenues[i];
            if e.business.same_as(business) && e.period == *period {
                proof {
                    lemma_revenue_map_tail(log, i + 1, key);
                    assert(log.take(i + 1).drop_last() =~= log.take(i as int));
                    assert(log.take(i + 1).last() == log[i as int]);
                }
                return Some(e.revenue);
            }
        }
        proof {
            lemma_revenue_map_tail(log, 0, key);
            assert(log.take(0) =~= Seq::<AttestedRevenue>::empty());
        }
        None
    }

    /// Issues a bond from `issuer` to `owner`; its id is the number of bonds issued before it.
    pub fn issue_bond(
        &mut self,
        issuer: Address,
        owner: Address,
        terms: BondTerms,
        attestation: Address,
        token: Address,
    ) -> (r: Result<u64, BondError>)
        requires
            old(self)@.wf(),
            old(self)@.bonds.len() < u64::MAX,
        ensures
            final(self)@.wf(),
            match r {
                Ok(id) => {
                    &&& issue_error(issuer@, owner@, terms@) is None
                    &&& id == old(self)@.bonds.len()
                    &&& final(self)@ == old(self)@.after_issue(issuer@, owner@, terms@, attestation@, token@)
                },
                Err(e) => issue_error(issuer@, owner@, terms@) == Some(e) && final(self)@ == old(self)@,
            },
    {
        match validate_issue(&issuer, &owner, &terms) {
            Err(e) => {
                return Err(e);
            },
            Ok(()) => {},
        }
        let id: u64 = self.bonds.len() as u64;
        proof {
            law_issue_keeps_wf(self@, issuer@, owner@, terms@, attestation@, token@);
        }
        let ghost old_bonds = self.bonds@;
        let bond = Bond {
            id,
            issuer,
            owner,
            terms,
            attestation,
            token,
            status: BondStatus::Active,
            total_redeemed: 0,
        };
        self.bonds.push(bond);
        proof {
            assert(self.bonds@.map_values(|b: Bond| b@) =~= old_bonds.map_values(|b: Bond| b@).push(bond@));
        }
        Ok(id)
    }

    /// Hybrid terms with the given face value, revenue share, per-period minimum and
    /// maximum and maturity, no grace period, issued in period "2026-01".
    pub open spec fn hybrid_terms(
        face_value: i128,
        revenue_share_bps: u32,
        min_payment: i128,
        max_payment: i128,
        maturity: u32,
    ) -> TermsModel {
        TermsModel {
            face_value,
            structure: BondStructure::Hybrid,
            revenue_share_bps,
            min_payment_per_period: min_payment,
            max_payment_per_period: max_payment,
            maturity_periods: maturity,
            grace_period_seconds: 0,
            issue_period: "2026-01"@,
        }
    }

    /// Issues a hybrid bond from `issuer` to `owner` on [`Self::hybrid_terms`] of the given
    /// amounts; its id is the number of bonds issued before it.
    pub fn issue_hybrid(
        &mut self,
        issuer: Address,
        owner: Address,
        face_value: i128,
        revenue_share_bps: u32,
        min_payment: i128,
        max_payment: i128,
        maturity: u32,
        attestation: Address,
        token: Address,
    ) -> (r: Result<u64, BondError>)
        requires
            old(self)@.wf(),
            old(self)@.bonds.len() < u64::MAX,
        ensures
            final(self)@.wf(),
            ({
                let terms = Self::hybrid_terms(face_value, revenue_share_bps, min_payment, max_payment, maturity);
                match r {
                    Ok(id) => {
                        &&& issue_error(issuer@, owner@, terms) is None
                        &&& id == old(self)@.bonds.len()
                        &&& final(self)@ == old(self)@.after_issue(issuer@, owner@, terms, attestation@, token@)
                    },
                    Err(e) => issue_error(issuer@, owner@, terms) == Some(e) && final(self)@ == old(self)@,
                }
            }),
    {
        let terms = BondTerms {
            face_value,
            structure: BondStructure::Hybrid,
            revenue_share_bps,
            min_payment_per_period: min_payment,
            max_payment_per_period: max_payment,
            maturity_periods: maturity,
            grace_period_seconds: 0,
            issue_period: "2026-01".to_owned(),
        };
        assert(terms@ == Self::hybrid_terms(face_value, revenue_share_bps, min_payment, max_payment, maturity));
        self.issue_bond(issuer, owner, terms, attestation, token)
    }

    /// Redeems bond `bond_id` for `period` from the revenue attested for its issuer in that
    /// period, and returns the transfer owed to the current owner.
    pub fn redeem(&mut self, bond_id: u64, period: &String) -> (r: Result<Payment, BondError>)
        requires
            old(self)@.wf(),
        ensures
            final(self)@.wf(),
            match r {
                Ok(p) => {
                    &&& old(self)@.redeem_error(bond_id, period@) is None
                    &&& p@ == old(self)@.redeem_payment(bond_id, period@)
                    &&& final(self)@ == old(self)@.after_redeem(bond_id, period@)
                },
                Err(e) => old(self)@.redeem_error(bond_id, period@) == Some(e) && final(self)@ == old(self)@,
            },
    {
        let ghost m = self@;
        if bond_id >= self.bonds.len() as u64 {
            return Err(BondError::BondNotFound);
        }
        let idx: usize = bond_id as usize;
        assert(self.bonds@[idx as int]@ == m.bond(bond_id));
        if self.bonds[idx].status != BondStatus::Active {
            return Err(BondError::BondNotActive);
        }
        let mut j: usize = 0;
        while j < self.redemptions.len()
            invariant
                j <= self.redemptions@.len(),
                m == self@,
                m == old(self)@,
                m.wf(),
                m.has_bond(bond_id),
                m.bond(bond_id).status == BondStatus::Active,
                forall|k: int|
                    0 <= k < j ==> !(#[trigger] m.redemptions[k].bond_id == bond_id
                        && m.redemptions[k].period == period@),
            decreases self.redemptions@.len() - j,
        {
            assert(self.redemptions@[j as int]@ == m.redemptions[j as int]);
            if self.redemptions[j].bond_id == bond_id && self.redemptions[j].period == *period {
                assert(m.redemptions[j as int].bond_id == bond_id);
                assert(m.is_redeemed(bond_id, period@));
                return Err(BondError::AlreadyRedeemed);
            }
            j = j + 1;
        }
        assert(!m.is_redeemed(bond_id, period@));
        let attested = self.attested_revenue(&self.bonds[idx].issuer, period);
        assert(m.bond_wf(bond_id as int));
        let (nb, amount) = match self.bonds[idx].redeemed(false, attested) {
            Err(e) => {
                return Err(e);
            },
            Ok(pair) => pair,
        };
        proof {
            law_redeem_keeps_wf(m, bond_id, period@);
        }
        let payment = Payment {
            token: nb.token.duplicate(),
            from: nb.issuer.duplicate(),
            to: nb.owner.duplicate(),
            amount,
        };
        let revenue: i128 = attested.unwrap();
        let ghost old_bonds = self.bonds@;
        let ghost old_reds = self.redemptions@;
        let rec = RedemptionRecord {
            bond_id,
            period: period.clone(),
            attested_revenue: revenue,
            redemption_amount: amount,
        };
        self.bonds.set(idx, nb);
        self.redemptions.push(rec);
        proof {
            assert(self.bonds@.map_values(|b: Bond| b@) =~= old_bonds.map_values(|b: Bond| b@).update(
                idx as int,
                nb@,
            ));
            assert(self.redemptions@.map_values(|r: RedemptionRecord| r@) =~= old_reds.map_values(
                |r: RedemptionRecord| r@,
            ).push(rec@));
        }
        Ok(payment)
    }

    /// Hands bond `bond_id` from its current owner `from` to `to`.
    pub fn transfer_ownership(&mut self, bond_id: u64, from: &Address, to: Address) -> (r: Result<(), BondError>)
        requires
            old(self)@.wf(),
        ensures
            final(self)@.wf(),
            match r {
                Ok(()) => old(self)@.transfer_error(bond_id, from@) is None && final(self)@ == old(self)@.after_transfer(bond_id, to@),
                Err(e) => old(self)@.transfer_error(bond_id, from@) == Some(e) && final(self)@ == old(self)@,
            },
    {
        let ghost m = self@;
        if bond_id >= self.bonds.len() as u64 {
            return Err(BondError::BondNotFound);
        }
        let idx: usize = bond_id as usize;
        assert(self.bonds@[idx as int]@ == m.bond(bond_id));
        let nb = match self.bonds[idx].transferred(from, to) {
            Err(e) => {
                return Err(e);
            },
            Ok(b) => b,
        };
        proof {
            law_transfer_keeps_wf(m, bond_id, nb@.owner);
        }
        let ghost old_bonds = self.bonds@;
        self.bonds.set(idx, nb);
        proof {
            assert(self.bonds@.map_values(|b: Bond| b@) =~= old_bonds.map_values(|b: Bond| b@).update(
                idx as int,
                nb@,
            ));
        }
        Ok(())
    }

    /// Marks an active bond defaulted; only the administrator may.
    pub fn mark_defaulted(&mut self, caller: &Address, bond_id: u64) -> (r: Result<(), BondError>)
        requires
            old(self)@.wf(),
        ensures
            final(self)@.wf(),
            match r {
                Ok(()) => old(self)@.default_error(caller@, bond_id) is None && final(self)@ == old(self)@.after_default(bond_id),
                Err(e) => old(self)@.default_error(caller@, bond_id) == Some(e) && final(self)@ == old(self)@,
            },
    {
        let ghost m = self@;
        match &self.admin {
            None => {
                return Err(BondError::NotInitialized);
            },
            Some(a) => {
                if !a.same_as(caller) {
                    return Err(BondError::Unauthorized);
                }
            },
        }
        if bond_id >= self.bonds.len() as u64 {
            return Err(BondError::BondNotFound);
        }
        let idx: usize = bond_id as usize;
        assert(self.bonds@[idx as int]@ == m.bond(bond_id));
        let nb = match self.bonds[idx].defaulted() {
            Err(e) => {
                return Err(e);
            },
            Ok(b) => b,
        };
        proof {
            law_default_keeps_wf(m, bond_id);
        }
        let ghost old_bonds = self.bonds@;
        self.bonds.set(idx, nb);
        proof {
            assert(self.bonds@.map_values(|b: Bond| b@) =~= old_bonds.map_values(|b: Bond| b@).update(
                idx as int,
                nb@,
            ));
        }
        Ok(())
    }

    /// How many bonds have been issued.
    pub fn bond_count(&self) -> (n: usize)
        ensures
            n == self@.bonds.len(),
    {
        self.bonds.len()
    }

    /// The bond with id `bond_id`, if it exists.
    pub fn get_bond(&self, bond_id: u64) -> (r: Option<Bond>)
        ensures
            match r {
                Some(b) => self@.has_bond(bond_id) && b@ == self@.bond(bond_id),
                None => !self@.has_bond(bond_id),
            },
    {
        if bond_id >= self.bonds.len() as u64 {
            return None;
        }
        let idx: usize = bond_id as usize;
        assert(self.bonds@[idx as int]@ == self@.bond(bond_id));
        Some(self.bonds[idx].duplicate())
    }

    /// The current owner of bond `bond_id`, if it exists.
    pub fn get_owner(&self, bond_id: u64) -> (r: Option<Address>)
        ensures
            match r {
                Some(a) => self@.has_bond(bond_id) && a@ == self@.bond(bond_id).owner,
                None => !self@.has_bond(bond_id),
            },
    {
        if bond_id >= self.bonds.len() as u64 {
            return None;
        }
        let idx: usize = bond_id as usize;
        assert(self.bonds@[idx as int]@ == self@.bond(bond_id));
        Some(self.bonds[idx].owner.duplicate())
    }

    /// Total paid out for bond `bond_id` (0 for an unknown bond).
    pub fn get_total_redeemed(&self, bond_id: u64) -> (r: i128)
        ensures
            r == self@.total_redeemed(bond_id),
    {
        if bond_id >= self.bonds.len() as u64 {
            return 0;
        }
        let idx: usize = bond_id as usize;
        assert(self.bonds@[idx as int]@ == self@.bond(bond_id));
        self.bonds[idx].total_redeemed
    }

    /// Face value of bond `bond_id` not yet paid out (0 for an unknown bond).
    pub fn get_remaining_value(&self, bond_id: u64) -> (r: i128)
        requires
            self@.wf(),
        ensures
            r == self@.remaining(bond_id),
    {
        if bond_id >= self.bonds.len() as u64 {
            return 0;
        }
        let idx: usize = bond_id as usize;
        assert(self.bonds@[idx as int]@ == self@.bond(bond_id));
        assert(self@.bond_wf(idx as int));
        self.bonds[idx].terms.face_value - self.bonds[idx].total_redeemed
    }

    /// The redemption of bond `bond_id` for `period`, if one was made.
    pub fn get_redemption(&self, bond_id: u64, period: &String) -> (r: Option<RedemptionRecord>)
        requires
            self@.wf(),
        ensures
            match r {
                Some(rec) => self@.redemption_of(bond_id, period@) == Some(rec@),
                None => self@.redemption_of(bond_id, period@) is None,
            },
            r is Some <==> self@.is_redeemed(bond_id, period@),
            r matches Some(rec) ==> {
                &&& rec.bond_id == bond_id
                &&& rec.period@ == period@
                &&& exists|j: int| 0 <= j < self@.redemptions.len() && #[trigger] self@.redemptions[j] == rec@
            },
    {
        proof {
            law_redemption_lookup(self@, bond_id, period@);
        }
        let ghost m = self@;
        let mut j: usize = 0;
        while j < self.redemptions.len()
            invariant
                j <= self.redemptions@.len(),
                m == self@,
                m.wf(),
                forall|k: int|
                    0 <= k < j ==> !(#[trigger] m.redemptions[k].bond_id == bond_id
                        && m.redemptions[k].period == period@),
            decreases self.redemptions@.len() - j,
        {
            assert(self.redemptions@[j as int]@ == m.redemptions[j as int]);
            if self.redemptions[j].bond_id == bond_id && self.redemptions[j].period == *period {
                proof {
                    assert(m.redemptions[j as int].bond_id == bond_id);
                    assert(m.is_redeemed(bond_id, period@));
                    let k = choose|k: int|
                        0 <= k < m.redemptions.len() && #[trigger] m.redemptions[k].bond_id == bond_id
                            && m.redemptions[k].period == period@;
                    if k != j {
                        if k < j {
                            assert(m.redemptions[k].bond_id == m.redemptions[j as int].bond_id);
                        } else {
                            assert(m.redemptions[j as int].bond_id == m.redemptions[k].bond_id);
                        }
                    }
                }
                return Some(self.redemptions[j].duplicate());
            }
            j = j + 1;
        }
        None
    }
}

/// The state that stored parts describe, with nothing attested.
pub open spec fn parts_model(admin: Option<Address>, bonds: Seq<Bond>, redemptions: Seq<RedemptionRecord>) -> ContractModel {
    ContractModel {
        admin: match admin {
            Some(a) => Some(a@),
            None => None,
        },
        bonds: bonds.map_values(|b: Bond| b@),
        redemptions: redemptions.map_values(|r: RedemptionRecord| r@),
        revenues: Map::empty(),
    }
}

impl RevenueBondContract {
    /// Rebuilds a contract from its stored administrator, bonds and redemptions, with nothing
    /// attested; refused (`None`) exactly when the parts break the contract's invariant.
    pub fn from_parts(admin: Option<Address>, bonds: Vec<Bond>, redemptions: Vec<RedemptionRecord>) -> (r: Option<RevenueBondContract>)
        ensures
            r is Some <==> parts_model(admin, bonds@, redemptions@).wf(),
            r matches Some(c) ==> c@ == parts_model(admin, bonds@, redemptions@),
    {
        let ghost m = parts_model(admin, bonds@, redemptions@);
        let nb: usize = bonds.len();
        let nr: usize = redemptions.len();
        // every record names a bond and pays a non-negative amount
        let mut j: usize = 0;
        while j < nr
            invariant
                j <= nr,
                nr == redemptions@.len(),
                nb == bonds@.len(),
                m == parts_model(admin, bonds@, redemptions@),
                forall|k: int|
                    0 <= k < j ==> {
                        &&& #[trigger] m.redemptions[k].bond_id < m.bonds.len()
                        &&& m.redemptions[k].redemption_amount >= 0
                    },
            decreases nr - j,
        {
            assert(m.redemptions[j as int] == redemptions@[j as int]@);
            if redemptions[j].bond_id >= nb as u64 || redemptions[j].redemption_amount < 0 {
                assert(!m.records_wf()) by {
                    if m.records_wf() {
                        assert(m.redemptions[j as int].bond_id < m.bonds.len());
                    }
                }
                return None;
            }
            j = j + 1;
        }
        assert(m.records_wf());
        // no bond is recorded twice for one period
        let mut a: usize = 0;
        while a < nr
            invariant
                a <= nr,
                nr == redemptions@.len(),
                m == parts_model(admin, bonds@, redemptions@),
                m.records_wf(),
                forall|x: int, y: int|
                    0 <= x < y < m.redemptions.len() && x < a ==> !(#[trigger] m.redemptions[x].bond_id
                        == #[trigger] m.redemptions[y].bond_id && m.redemptions[x].period
                        == m.redemptions[y].period),
            decreases nr - a,
        {
            let mut b: usize = a + 1;
            while b < nr
                invariant
                    a < nr,
                    a + 1 <= b <= nr,
                    nr == redemptions@.len(),
                    m == parts_model(admin, bonds@, redemptions@),
                    m.records_wf(),
                    forall|x: int, y: int|
                        0 <= x < y < m.redemptions.len() && x < a ==> !(#[trigger] m.redemptions[x].bond_id
                            == #[trigger] m.redemptions[y].bond_id && m.redemptions[x].period
                            == m.redemptions[y].period),
                    forall|y: int|
                        a < y < b ==> !(m.redemptions[a as int].bond_id == #[trigger] m.redemptions[y].bond_id
                            && m.redemptions[a as int].period == m.redemptions[y].period),
                decreases nr - b,
            {
                assert(m.redemptions[a as int] == redemptions@[a as int]@);
                assert(m.redemptions[b as int] == redemptions@[b as int]@);
                if redemptions[a].bond_id == redemptions[b].bond_id && redemptions[a].period
                    == redemptions[b].period {
                    assert(!m.records_unique()) by {
                        if m.records_unique() {
                            assert(!(m.redemptions[a as int].bond_id == m.redemptions[b as int].bond_id
                                && m.redemptions[a as int].period == m.redemptions[b as int].period));
                        }
                    }
                    return None;
                }
                b = b + 1;
            }
            a = a + 1;
        }
        assert(m.records_unique());
        // each bond is consistent, at its own position, and its total is the sum of its records
        let mut i: usize = 0;
        while i < nb
            invariant
                i <= nb,
                nb == bonds@.len(),
                nr == redemptions@.len(),
                m == parts_model(admin, bonds@, redemptions@),
                m.records_wf(),
                m.records_unique(),
                forall|k: int| 0 <= k < i ==> #[trigger] m.bond_wf(k),
            decreases nb - i,
        {
            let bond = &bonds[i];
            assert(m.bonds[i as int] == bond@);
            if bond.id != i as u64 || !bond.is_consistent() {
                assert(!m.bond_wf(i as int));
                assert(!m.bonds_wf());
                return None;
            }
            let total: i128 = bond.total_redeemed;
            let mut acc: i128 = 0;
            let mut k: usize = 0;
            assert(m.redemptions.take(0) =~= Seq::<RecordModel>::empty());
            while k < nr
                invariant
                    k <= nr,
                    i < nb,
                    nb == bonds@.len(),
                    nr == redemptions@.len(),
                    m == parts_model(admin, bonds@, redemptions@),
                    m.records_wf(),
                    total == m.bonds[i as int].total_redeemed,
                    0 <= acc <= total,
                    acc == redeemed_sum(m.redemptions.take(k as int), i as u64),
                decreases nr - k,
            {
                assert(m.redemptions[k as int] == redemptions@[k as int]@);
                proof {
                    lemma_redeemed_sum_step(m.redemptions, k as int, i as u64);
                }
                if redemptions[k].bond_id == i as u64 {
                    let amount: i128 = redemptions[k].redemption_amount;
                    if amount > total - acc {
                        proof {
                            assert forall|q: int| 0 <= q < m.redemptions.len() implies #[trigger] m.redemptions[q].redemption_amount
                                >= 0 by {
                                assert(m.redemptions[q].bond_id < m.bonds.len());
                            }
                            lemma_redeemed_sum_prefix(m.redemptions, k + 1, i as u64);
                            assert(!m.bond_wf(i as int));
                            assert(!m.bonds_wf());
                        }
                        return None;
                    }
                    acc = acc + amount;
                }
                k = k + 1;
            }
            assert(m.redemptions.take(nr as int) =~= m.redemptions);
            if acc != total {
                assert(!m.bond_wf(i as int));
                assert(!m.bonds_wf());
                return None;
            }
            i = i + 1;
        }
        let c = RevenueBondContract { admin, bonds, redemptions, revenues: Vec::new() };
        proof {
            assert(revenue_map(c.revenues@) =~= Map::empty());
        }
        Some(c)
    }

    /// The administrator, bonds and redemptions of this contract, for storage.
    pub fn into_parts(self) -> (r: (Option<Address>, Vec<Bond>, Vec<RedemptionRecord>))
        ensures
            parts_model(r.0, r.1@, r.2@) == (ContractModel { revenues: Map::empty(), ..self@ }),
    {
        (self.admin, self.bonds, self.redemptions)
    }
}

} // verus!
