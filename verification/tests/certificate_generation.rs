use autodns::certificate_build::build_certificates;
use autodns::certificates::GenerateCertificateRequest;
use autodns::runtime::{certificates_from_pem, private_key_from_pem, TlsSource};

fn request(ips: &[&str], valid_days: Option<u32>) -> GenerateCertificateRequest {
    GenerateCertificateRequest {
        common_name: "autodns.local".into(),
        organization: " autodns ".into(),
        domains: vec!["localhost".into(), "autodns.local".into()],
        ip_addresses: ips.iter().map(|s| s.to_string()).collect(),
        valid_days,
        output_dir: String::new(),
        file_prefix: "autodns-local".into(),
    }
}

#[test]
fn certificates_are_generated_until_the_clamped_day() {
    let (plan, pems) = build_certificates(request(&["127.0.0.1", "::1"], Some(30)), (2024, 1, 31)).expect("certs");
    assert_eq!(plan.organization, "autodns");
    assert_eq!((pems.not_after_year, pems.not_after_month, pems.not_after_day), (2024, 3, 1));
    assert_eq!(certificates_from_pem(pems.ca_cert_pem.as_bytes()).expect("ca").len(), 1);
    assert_eq!(certificates_from_pem(pems.cert_pem.as_bytes()).expect("server").len(), 1);
    assert!(private_key_from_pem(pems.key_pem.as_bytes(), TlsSource::Inline).is_ok());
    assert!(private_key_from_pem(pems.ca_key_pem.as_bytes(), TlsSource::Inline).is_ok());
    assert_ne!(pems.ca_key_pem, pems.key_pem);

    let (plan, pems) = build_certificates(request(&[], Some(100_000)), (2023, 12, 31)).expect("certs");
    assert_eq!(plan.valid_days, 8250);
    assert_eq!((pems.not_after_year, pems.not_after_month, pems.not_after_day), (2046, 8, 2));
}

#[test]
fn bad_certificate_address_is_refused_before_generation() {
    let err = build_certificates(request(&["not-an-ip"], Some(30)), (2024, 1, 1)).unwrap_err();
    assert!(err.contains("invalid certificate IP address"));
}
