//! Rows that the store reads and writes: customers, identities, addresses,
//! accounts, complaints, sanctions lists and jurisdictions.
use vstd::prelude::*;
use crate::types::Tick;

verus! {

/// A complaint opened recently, as listed for analytics.
#[derive(Debug, Clone)]
pub struct RecentComplaint {
    pub complaint_id: String,
    pub customer_id: String,
    pub issue: String,
    pub tick_opened: Tick,
}

/// An open complaint with its SLA due tick.
#[derive(Debug, Clone)]
pub struct OpenComplaint {
    pub complaint_id: String,
    pub tick_opened: Tick,
    pub sla_due_tick: Tick,
    pub sla_breached: bool,
}

/// A customer's identity record (SSN parts, identity type, date of birth).
#[derive(Debug, Clone)]
pub struct CustomerIdentityRow {
    pub customer_id: String,
    pub run_id: String,
    pub ssn_full: String,
    pub ssn_area: String,
    pub ssn_group: String,
    pub ssn_serial: String,
    /// valid | synthetic | deceased | invalid
    pub ssn_status: String,
    /// natural_person | synthetic | stolen
    pub identity_type: String,
    /// YYYY-MM-DD
    pub date_of_birth: String,
    pub age_at_open: i64,
    pub ssn_shared_count: i64,
    pub ssn_first_seen_tick: i64,
}

/// A customer's address record.
#[derive(Debug, Clone)]
pub struct CustomerAddressRow {
    pub address_id: String,
    pub customer_id: String,
    pub run_id: String,
    pub street_address: String,
    pub city: String,
    pub state: String,
    pub zip_code: String,
    /// residential | po_box | cmra | homeless_shelter | dv_shelter | commercial
    pub address_type: String,
    /// stable | transient | temporary
    pub address_stability: String,
    pub verification_status: String,
    pub delivery_point: Option<String>,
    pub dwelling_type: Option<String>,
    pub occupant_count: i64,
    pub first_seen_tick: i64,
    pub is_high_risk: i64,
    pub is_protected_class: i64,
}

/// A customer as fraud detection reads it.
#[derive(Debug, Clone)]
pub struct CustomerRow {
    pub customer_id: String,
    pub segment: String,
    pub open_tick: i64,
    pub status: String,
}

/// An account as fraud detection reads it.
#[derive(Debug, Clone)]
pub struct FraudAccountRow {
    pub account_id: String,
    pub customer_id: String,
    pub product_id: String,
    pub status: String,
    pub open_tick: i64,
}

/// An entry of the OFAC sanctions watchlist.
#[derive(Debug, Clone)]
pub struct OFACWatchlistRow {
    pub entity_id: String,
    pub entity_type: String,
    pub full_name: String,
    pub aliases: Option<String>,
    pub program: String,
    pub country_codes: Option<String>,
    pub address_fragments: Option<String>,
    pub id_numbers: Option<String>,
    pub date_of_birth: Option<String>,
    pub risk_level: String,
    pub effective_date: String,
    pub remarks: Option<String>,
}

/// A high-risk jurisdiction.
#[derive(Debug, Clone)]
pub struct HighRiskJurisdictionRow {
    pub country_code: String,
    pub country_name: String,
    pub risk_category: String,
    pub risk_level: String,
    pub fatf_status: Option<String>,
    pub cpi_score: Option<i64>,
    pub enhanced_dd_required: bool,
    pub effective_date: String,
    pub notes: Option<String>,
}

/// A "doing business as" registration of a business entity.
#[derive(Debug, Clone)]
pub struct DbaRegistrationRow {
    pub dba_id: String,
    pub entity_id: String,
    pub run_id: String,
    pub dba_name: String,
    pub state_registered: String,
    pub status: String,
    pub is_potentially_deceptive: i64,
}

/// A custodial account held for a minor.
#[derive(Debug, Clone)]
pub struct CustodialAccountRow {
    pub account_id: String,
    pub run_id: String,
    pub account_type: String,
    pub minor_customer_id: String,
    pub minor_dob: String,
    pub age_of_majority: i64,
    pub termination_age: i64,
    pub custodian_customer_id: String,
    pub custodian_relationship: String,
    pub tax_reporting_ssn: String,
    pub state_governed: String,
}

/// A trust account.
#[derive(Debug, Clone)]
pub struct TrustAccountRow {
    pub account_id: String,
    pub run_id: String,
    pub trust_type: String,
    pub trust_name: String,
    pub trust_ein: Option<String>,
    pub grantor_customer_id: Option<String>,
    pub trustee_customer_id: String,
    pub trustee_type: String,
    pub beneficiary_count: i64,
    pub revocable: i64,
    pub tax_reporting_id: String,
    pub tax_treatment: String,
    pub spendthrift_clause: i64,
    pub special_needs_trust: i64,
}

/// A customer's citizenship, residency and sanctions screening status.
#[derive(Debug, Clone)]
pub struct CustomerInternationalRow {
    pub customer_id: String,
    pub run_id: String,
    pub citizenship_country: String,
    pub residency_country: String,
    pub is_us_person: i64,
    pub visa_status: Option<String>,
    pub foreign_tin: Option<String>,
    pub ofac_check_status: String,
    pub sanctions_risk: String,
    pub pep_status: i64,
    pub source_of_funds: Option<String>,
    pub kyc_renewal_date: String,
}

/// An authorized signer on an account.
#[derive(Debug, Clone)]
pub struct AuthorizedSignerRow {
    pub signer_id: String,
    pub account_id: String,
    pub run_id: String,
    pub signer_customer_id: String,
    pub signer_role: String,
    pub authority_level: String,
    pub added_tick: i64,
    pub removed_tick: Option<i64>,
    pub is_active: i64,
}

} // verus!
