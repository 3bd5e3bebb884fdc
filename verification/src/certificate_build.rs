//! Making the listener's certificates: a local CA and a server certificate signed by it,
//! with `rcgen` and fresh ECDSA P-256 keys, valid until the day the request asks for.
use crate::certificates::{
    plan_certificate, plan_matches, plan_refusal, CertificatePlan, GenerateCertificateRequest, MAX_VALID_DAYS,
};
use crate::ip_text::ip_to_string;
use chrono::Datelike;
use vstd::prelude::*;

verus! {

/// `rcgen`'s certificate, with its key pair.
#[verifier::external_type_specification]
#[verifier::external_body]
pub struct ExRcgenCertificate(rcgen::Certificate);

/// `rcgen`'s certificate parameters.
#[verifier::external_type_specification]
#[verifier::external_body]
pub struct ExRcgenParams(rcgen::CertificateParams);

/// Whether a year is a leap year of the Gregorian calendar.
pub open spec fn leap_year(y: int) -> bool {
    (y % 4 == 0 && y % 100 != 0) || y % 400 == 0
}

/// The days of a month of the Gregorian calendar.
pub open spec fn days_in_month(y: int, m: int) -> int {
    if m == 2 {
        if leap_year(y) { 29 } else { 28 }
    } else if m == 4 || m == 6 || m == 9 || m == 11 {
        30
    } else {
        31
    }
}

/// Whether a year, month and day name a day of the Gregorian calendar.
pub open spec fn valid_date(d: (i32, u32, u32)) -> bool {
    1 <= d.1 <= 12 && 1 <= d.2 <= days_in_month(d.0 as int, d.1 as int)
}

/// Whether a day can be written into a certificate: a calendar day of the years -9999 to
/// 9999.
pub open spec fn certificate_date(d: (i32, u32, u32)) -> bool {
    valid_date(d) && -9999 <= d.0 <= 9999
}

/// The day `days` days after a day, as `chrono` counts it; `None` when `chrono` cannot.
pub uninterp spec fn date_plus_days(day: (i32, u32, u32), days: u32) -> Option<(i32, u32, u32)>;

/// `chrono::NaiveDate::from_ymd_opt`, then `checked_add_days`: the day `days` days later,
/// as year, month and day. The result is the named function of the arguments; it is a
/// calendar day no earlier in years and at most `days / 365 + 1` years later, and there is
/// one for every calendar day of the years -9999 to 9999 and at most `MAX_VALID_DAYS` days
/// (chrono's dates reach some 262000 years either way).
#[verifier::external_body]
fn add_days(day: (i32, u32, u32), days: u32) -> (r: Option<(i32, u32, u32)>)
    ensures
        r == date_plus_days(day, days),
        certificate_date(day) && days <= MAX_VALID_DAYS ==> r is Some,
        r matches Some(later) ==> valid_date(later) && day.0 <= later.0 <= day.0 + 1 + days / 365,
{
    let date = chrono::NaiveDate::from_ymd_opt(day.0, day.1, day.2)?.checked_add_days(chrono::Days::new(days as u64))?;
    Some((date.year(), date.month(), date.day()))
}

/// `rcgen::CertificateParams::new` over `names`, with a distinguished name of the common
/// name alone and the expiry day `not_after` (`rcgen::date_time_ymd`, which panics on
/// other than a calendar day of the years -9999 to 9999).
#[verifier::external_body]
fn params_for(names: &Vec<String>, common_name: &str, not_after: (i32, u32, u32)) -> (p: rcgen::CertificateParams)
    requires
        certificate_date(not_after),
{
    let mut params = rcgen::CertificateParams::new(names.clone());
    let mut dn = rcgen::DistinguishedName::new();
    dn.push(rcgen::DnType::CommonName, common_name);
    params.distinguished_name = dn;
    params.not_after = rcgen::date_time_ymd(not_after.0, not_after.1 as u8, not_after.2 as u8);
    params
}

/// `rcgen::DistinguishedName::push` of the organization name.
#[verifier::external_body]
fn add_organization(params: &mut rcgen::CertificateParams, organization: &str) {
    params.distinguished_name.push(rcgen::DnType::OrganizationName, organization)
}

/// Sets `is_ca` to an unconstrained CA.
#[verifier::external_body]
fn mark_ca(params: &mut rcgen::CertificateParams) {
    params.is_ca = rcgen::IsCa::Ca(rcgen::BasicConstraints::Unconstrained)
}

/// `str::parse` of an IP address text, then a push onto the subject alternative names;
/// whether the text parsed (nothing is added when it did not).
#[verifier::external_body]
fn add_ip_name(params: &mut rcgen::CertificateParams, ip: &str) -> (added: bool) {
    match ip.parse() {
        Ok(addr) => {
            params.subject_alt_names.push(rcgen::SanType::IpAddress(addr));
            true
        },
        Err(_) => false,
    }
}

/// `rcgen::KeyPair::generate` (ECDSA P-256) put into the parameters, then
/// `rcgen::Certificate::from_params`. The key is random, so nothing is claimed of it.
#[verifier::external_body]
fn certificate_with_new_key(params: rcgen::CertificateParams) -> (r: Result<rcgen::Certificate, String>) {
    let mut params = params;
    params.key_pair = Some(rcgen::KeyPair::generate(&rcgen::PKCS_ECDSA_P256_SHA256).map_err(|e| e.to_string())?);
    rcgen::Certificate::from_params(params).map_err(|e| e.to_string())
}

/// `rcgen::Certificate::serialize_pem`: the self-signed certificate as PEM, which always
/// holds its `BEGIN` line.
#[verifier::external_body]
fn certificate_pem(cert: &rcgen::Certificate) -> (r: Result<String, String>)
    ensures
        r matches Ok(s) ==> s@.len() > 0,
{
    cert.serialize_pem().map_err(|e| e.to_string())
}

/// `rcgen::Certificate::serialize_pem_with_signer`: the certificate signed by `ca`, as PEM.
#[verifier::external_body]
fn certificate_pem_signed(cert: &rcgen::Certificate, ca: &rcgen::Certificate) -> (r: Result<String, String>)
    ensures
        r matches Ok(s) ==> s@.len() > 0,
{
    cert.serialize_pem_with_signer(ca).map_err(|e| e.to_string())
}

/// `rcgen::Certificate::serialize_private_key_pem`: the generated key pair as PKCS#8 PEM.
#[verifier::external_body]
fn private_key_pem(cert: &rcgen::Certificate) -> (r: String)
    ensures
        r@.len() > 0,
{
    cert.serialize_private_key_pem()
}

/// The PEM texts of a generated CA and server certificate, and their expiry day.
#[derive(Clone, Debug)]
pub struct CertificatePems {
    pub ca_cert_pem: String,
    pub ca_key_pem: String,
    pub cert_pem: String,
    pub key_pem: String,
    /// The expiry day: year, month and day.
    pub not_after_year: i32,
    pub not_after_month: u32,
    pub not_after_day: u32,
}

fn named_params(names: &Vec<String>, plan: &CertificatePlan, not_after: (i32, u32, u32)) -> (p: rcgen::CertificateParams)
    requires
        certificate_date(not_after),
{
    let mut params = params_for(names, plan.common_name.as_str(), not_after);
    if !plan.organization.as_str().is_empty() {
        add_organization(&mut params, plan.organization.as_str());
    }
    params
}

/// Generates a CA for the plan's common name and organization (the organization only when
/// it is not empty) and a server certificate for its domains and addresses signed by it,
/// both expiring on `not_after`. The keys are random: of an outcome only that every PEM
/// text holds something, and that the expiry day is `not_after`, is stated.
pub fn generate_pems(plan: &CertificatePlan, not_after: (i32, u32, u32)) -> (r: Result<CertificatePems, String>)
    requires
        certificate_date(not_after),
    ensures
        r matches Ok(p) ==> {
            &&& p.ca_cert_pem@.len() > 0
            &&& p.ca_key_pem@.len() > 0
            &&& p.cert_pem@.len() > 0
            &&& p.key_pem@.len() > 0
            &&& (p.not_after_year, p.not_after_month, p.not_after_day) == not_after
        },
{
    let ca_names = vec![plan.common_name.clone()];
    let mut ca_params = named_params(&ca_names, plan, not_after);
    mark_ca(&mut ca_params);
    let ca = certificate_with_new_key(ca_params)?;
    let mut server_params = named_params(&plan.domains, plan, not_after);
    let mut i: usize = 0;
    while i < plan.ips.len()
        decreases plan.ips@.len() - i,
    {
        let text = ip_to_string(plan.ips[i]);
        if !add_ip_name(&mut server_params, text.as_str()) {
            let mut message = String::from_str("invalid certificate IP address: ");
            message.append(text.as_str());
            return Err(message);
        }
        i = i + 1;
    }
    let server = certificate_with_new_key(server_params)?;
    let ca_cert_pem = certificate_pem(&ca)?;
    let ca_key_pem = private_key_pem(&ca);
    let cert_pem = certificate_pem_signed(&server, &ca)?;
    let key_pem = private_key_pem(&server);
    Ok(
        CertificatePems {
            ca_cert_pem,
            ca_key_pem,
            cert_pem,
            key_pem,
            not_after_year: not_after.0,
            not_after_month: not_after.1,
            not_after_day: not_after.2,
        },
    )
}

/// Normalizes a certificate request and generates its certificates, valid until
/// `valid_days` after `today`: the plan is `plan_certificate`'s, so an address that does
/// not parse is refused before anything is generated, and the expiry day is the day the
/// clamped validity after `today`.
pub fn build_certificates(req: GenerateCertificateRequest, today: (i32, u32, u32)) -> (r: Result<
    (CertificatePlan, CertificatePems),
    String,
>)
    requires
        valid_date(today),
        -9999 <= today.0 <= 9999 - 1 - MAX_VALID_DAYS / 365,
    ensures
        match r {
            Ok((p, pems)) => {
                &&& plan_matches(req, p)
                &&& date_plus_days(today, p.valid_days) == Some((pems.not_after_year, pems.not_after_month, pems.not_after_day))
                &&& pems.ca_cert_pem@.len() > 0 && pems.ca_key_pem@.len() > 0
                &&& pems.cert_pem@.len() > 0 && pems.key_pem@.len() > 0
            },
            Err(e) => plan_refusal(req, e@) || exists|p: CertificatePlan| plan_matches(req, p),
        },
{
    let plan = match plan_certificate(req) {
        Err(e) => return Err(e),
        Ok(p) => p,
    };
    assert(plan.valid_days <= MAX_VALID_DAYS);
    let not_after = match add_days(today, plan.valid_days) {
        Some(d) => d,
        None => return Err(String::from_str("certificate expiry date is out of range")),
    };
    assert(not_after.0 <= 9999) by (nonlinear_arith)
        requires
            not_after.0 <= today.0 + 1 + plan.valid_days / 365,
            plan.valid_days <= MAX_VALID_DAYS,
            today.0 <= 9999 - 1 - MAX_VALID_DAYS / 365,
            MAX_VALID_DAYS == 8250,
    ;
    match generate_pems(&plan, not_after) {
        Err(e) => Err(e),
        Ok(pems) => Ok((plan, pems)),
    }
}

} // verus!
