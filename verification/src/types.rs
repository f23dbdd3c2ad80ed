use vstd::prelude::*;

verus! {

/// An account or contract on the ledger, identified by its canonical key text.
#[derive(Clone, Debug, PartialEq, Eq)]
pub struct Address {
    pub key: String,
}

impl View for Address {
    type V = Seq<char>;

    open spec fn view(&self) -> Seq<char> {
        self.key@
    }
}

impl Address {
    /// An address with the given key text.
    pub fn new(key: String) -> (a: Address)
        ensures
            a@ == key@,
    {
        Address { key }
    }

    /// A second address value with the same key.
    pub fn duplicate(&self) -> (a: Address)
        ensures
            a@ == self@,
    {
        Address { key: self.key.clone() }
    }

    /// Whether two addresses name the same account.
    pub fn same_as(&self, other: &Address) -> (r: bool)
        ensures
            r == (self@ == other@),
    {
        self.key == other.key
    }
}

/// How the per-period payment of a bond is computed.
#[derive(Clone, Copy, Debug, PartialEq, Eq, Structural)]
pub enum BondStructure {
    /// A fixed minimum plus a share of attested revenue, capped per period.
    Hybrid,
}

/// Lifecycle state of a bond.
#[derive(Clone, Copy, Debug, PartialEq, Eq, Structural)]
pub enum BondStatus {
    Active,
    FullyRedeemed,
    Defaulted,
}

/// Why an operation of the contract was refused.
#[derive(Clone, Copy, Debug, PartialEq, Eq, Structural)]
pub enum BondError {
    AlreadyInitialized,
    NotInitialized,
    Unauthorized,
    IssuerIsOwner,
    InvalidFaceValue,
    NegativeMinPayment,
    InvalidPaymentRange,
    InvalidShareBps,
    BondNotFound,
    BondNotActive,
    AlreadyRedeemed,
    RevenueNotAttested,
    NegativeRevenue,
    NotOwner,
}

/// The text that reports an error.
pub open spec fn error_text(e: BondError) -> Seq<char> {
    match e {
        BondError::AlreadyInitialized => "already initialized"@,
        BondError::NotInitialized => "not initialized"@,
        BondError::Unauthorized => "unauthorized"@,
        BondError::IssuerIsOwner => "issuer and owner must differ"@,
        BondError::InvalidFaceValue => "face_value must be positive"@,
        BondError::NegativeMinPayment => "min payment must be non-negative"@,
        BondError::InvalidPaymentRange => "max must be >= min"@,
        BondError::InvalidShareBps => "revenue_share_bps must be <= 10000"@,
        BondError::BondNotFound => "bond not found"@,
        BondError::BondNotActive => "bond not active"@,
        BondError::AlreadyRedeemed => "already redeemed for period"@,
        BondError::RevenueNotAttested => "no attested revenue for period"@,
        BondError::NegativeRevenue => "attested_revenue must be non-negative"@,
        BondError::NotOwner => "caller is not the bond owner"@,
    }
}

impl BondError {
    /// The text that reports this error.
    pub fn message(&self) -> (s: &'static str)
        ensures
            s@ == error_text(*self),
    {
        match self {
            BondError::AlreadyInitialized => "already initialized",
            BondError::NotInitialized => "not initialized",
            BondError::Unauthorized => "unauthorized",
            BondError::IssuerIsOwner => "issuer and owner must differ",
            BondError::InvalidFaceValue => "face_value must be positive",
            BondError::NegativeMinPayment => "min payment must be non-negative",
            BondError::InvalidPaymentRange => "max must be >= min",
            BondError::InvalidShareBps => "revenue_share_bps must be <= 10000",
            BondError::BondNotFound => "bond not found",
            BondError::BondNotActive => "bond not active",
            BondError::AlreadyRedeemed => "already redeemed for period",
            BondError::RevenueNotAttested => "no attested revenue for period",
            BondError::NegativeRevenue => "attested_revenue must be non-negative",
            BondError::NotOwner => "caller is not the bond owner",
        }
    }
}

/// The terms a bond is issued under.
#[derive(Clone, Debug)]
pub struct BondTerms {
    pub face_value: i128,
    pub structure: BondStructure,
    pub revenue_share_bps: u32,
    pub min_payment_per_period: i128,
    pub max_payment_per_period: i128,
    pub maturity_periods: u32,
    pub grace_period_seconds: u64,
    pub issue_period: String,
}

/// Mathematical view of [`BondTerms`].
pub struct TermsModel {
    pub face_value: i128,
    pub structure: BondStructure,
    pub revenue_share_bps: u32,
    pub min_payment_per_period: i128,
    pub max_payment_per_period: i128,
    pub maturity_periods: u32,
    pub grace_period_seconds: u64,
    pub issue_period: Seq<char>,
}

impl View for BondTerms {
    type V = TermsModel;

    open spec fn view(&self) -> TermsModel {
        TermsModel {
            face_value: self.face_value,
            structure: self.structure,
            revenue_share_bps: self.revenue_share_bps,
            min_payment_per_period: self.min_payment_per_period,
            max_payment_per_period: self.max_payment_per_period,
            maturity_periods: self.maturity_periods,
            grace_period_seconds: self.grace_period_seconds,
            issue_period: self.issue_period@,
        }
    }
}

impl BondTerms {
    /// A second value of the same terms.
    pub fn duplicate(&self) -> (t: BondTerms)
        ensures
            t@ == self@,
    {
        BondTerms {
            face_value: self.face_value,
            structure: self.structure,
            revenue_share_bps: self.revenue_share_bps,
            min_payment_per_period: self.min_payment_per_period,
            max_payment_per_period: self.max_payment_per_period,
            maturity_periods: self.maturity_periods,
            grace_period_seconds: self.grace_period_seconds,
            issue_period: self.issue_period.clone(),
        }
    }
}

/// A bond as the contract records it.
#[derive(Clone, Debug)]
pub struct Bond {
    pub id: u64,
    pub issuer: Address,
    pub owner: Address,
    pub terms: BondTerms,
    pub attestation: Address,
    pub token: Address,
    pub status: BondStatus,
    pub total_redeemed: i128,
}

/// Mathematical view of [`Bond`].
pub struct BondModel {
    pub id: u64,
    pub issuer: Seq<char>,
    pub owner: Seq<char>,
    pub terms: TermsModel,
    pub attestation: Seq<char>,
    pub token: Seq<char>,
    pub status: BondStatus,
    pub total_redeemed: i128,
}

impl View for Bond {
    type V = BondModel;

    open spec fn view(&self) -> BondModel {
        BondModel {
            id: self.id,
            issuer: self.issuer@,
            owner: self.owner@,
            terms: self.terms@,
            attestation: self.attestation@,
            token: self.token@,
            status: self.status,
            total_redeemed: self.total_redeemed,
        }
    }
}

impl Bond {
    /// A second value of the same bond.
    pub fn duplicate(&self) -> (b: Bond)
        ensures
            b@ == self@,
    {
        Bond {
            id: self.id,
            issuer: self.issuer.duplicate(),
            owner: self.owner.duplicate(),
            terms: self.terms.duplicate(),
            attestation: self.attestation.duplicate(),
            token: self.token.duplicate(),
            status: self.status,
            total_redeemed: self.total_redeemed,
        }
    }
}

/// What was paid out for one bond in one period.
#[derive(Clone, Debug)]
pub struct RedemptionRecord {
    pub bond_id: u64,
    pub period: String,
    pub attested_revenue: i128,
    pub redemption_amount: i128,
}

/// Mathematical view of [`RedemptionRecord`].
pub struct RecordModel {
    pub bond_id: u64,
    pub period: Seq<char>,
    pub attested_revenue: i128,
    pub redemption_amount: i128,
}

impl View for RedemptionRecord {
    type V = RecordModel;

    open spec fn view(&self) -> RecordModel {
        RecordModel {
            bond_id: self.bond_id,
            period: self.period@,
            attested_revenue: self.attested_revenue,
            redemption_amount: self.redemption_amount,
        }
    }
}

impl RedemptionRecord {
    /// A second value of the same record.
    pub fn duplicate(&self) -> (r: RedemptionRecord)
        ensures
            r@ == self@,
    {
        RedemptionRecord {
            bond_id: self.bond_id,
            period: self.period.clone(),
            attested_revenue: self.attested_revenue,
            redemption_amount: self.redemption_amount,
        }
    }
}

/// A token transfer that a successful redemption owes: `amount` of `token`
/// from the issuer (`from`) to the current owner (`to`).
#[derive(Clone, Debug)]
pub struct Payment {
    pub token: Address,
    pub from: Address,
    pub to: Address,
    pub amount: i128,
}

/// Mathematical view of [`Payment`].
pub struct PaymentModel {
    pub token: Seq<char>,
    pub from: Seq<char>,
    pub to: Seq<char>,
    pub amount: i128,
}

impl View for Payment {
    type V = PaymentModel;

    open spec fn view(&self) -> PaymentModel {
        PaymentModel { token: self.token@, from: self.from@, to: self.to@, amount: self.amount }
    }
}

} // verus!
