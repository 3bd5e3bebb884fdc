use autodns::config::CoreServerConfig;
use autodns::runtime::{
    certificates_from_pem, load_tls_material, private_key_from_pem, validate_server_tls_config, TlsLoadError,
    TlsMaterialError, TlsSource,
};

fn self_signed() -> (String, String, Vec<u8>) {
    let cert = rcgen::generate_simple_self_signed(vec!["localhost".to_string()]).expect("certificate");
    (cert.serialize_pem().expect("pem"), cert.serialize_private_key_pem(), cert.serialize_private_key_der())
}

fn server(source: &str, cert_pem: &str, key_pem: &str) -> CoreServerConfig {
    CoreServerConfig {
        mode: "dot".into(),
        listen: "127.0.0.1:853".into(),
        tls_source: source.into(),
        cert_file: "cert.pem".into(),
        key_file: "key.pem".into(),
        cert_pem: cert_pem.into(),
        key_pem: key_pem.into(),
        path: String::new(),
    }
}

#[test]
fn inline_material_reads_certificate_and_key() {
    let (cert_pem, key_pem, key_der) = self_signed();
    let material = load_tls_material(&server("inline", &cert_pem, &key_pem), &[], &[]).expect("material");
    assert_eq!(material.certificates.len(), 1);
    assert_eq!(material.private_key, key_der);
    assert!(validate_server_tls_config(&server("inline", &cert_pem, &key_pem), &[], &[]).is_ok());
}

#[test]
fn file_material_comes_from_the_file_contents() {
    let (cert_pem, key_pem, key_der) = self_signed();
    let material =
        load_tls_material(&server("file", "", ""), cert_pem.as_bytes(), key_pem.as_bytes()).expect("material");
    assert_eq!(material.private_key, key_der);
    let material = load_tls_material(&server("", "", ""), cert_pem.as_bytes(), key_pem.as_bytes()).expect("material");
    assert_eq!(material.certificates.len(), 1);
}

#[test]
fn tls_material_refusals_come_in_order() {
    let (cert_pem, key_pem, _) = self_signed();
    let err = load_tls_material(&server("vault", &cert_pem, &key_pem), &[], &[]).unwrap_err();
    assert_eq!(err.message(), "server.tls_source must be one of file,inline");

    let err = load_tls_material(&server("inline", &cert_pem, &cert_pem), &[], &[]).unwrap_err();
    assert!(matches!(err, TlsLoadError::Material(TlsMaterialError::NoKeyInline)));
    assert_eq!(err.message(), "private key PEM does not contain a supported key");

    let err = load_tls_material(&server("file", "", ""), cert_pem.as_bytes(), b"no pem here").unwrap_err();
    assert!(matches!(err, TlsLoadError::Material(TlsMaterialError::NoKeyInFile)));

    let err = load_tls_material(&server("inline", &key_pem, &key_pem), &[], &[]).unwrap_err();
    assert_eq!(err.message(), "certificate PEM does not contain a certificate");

    let broken = "-----BEGIN CERTIFICATE-----\n!!!!\n-----END CERTIFICATE-----\n";
    let err = load_tls_material(&server("inline", broken, &key_pem), &[], &[]).unwrap_err();
    assert!(matches!(err, TlsLoadError::Pem(_)));
}

#[test]
fn pem_readers_take_what_rustls_pemfile_finds() {
    let (cert_pem, key_pem, key_der) = self_signed();
    let both = format!("{cert_pem}{key_pem}");
    assert_eq!(certificates_from_pem(both.as_bytes()).expect("certs").len(), 1);
    assert_eq!(private_key_from_pem(both.as_bytes(), TlsSource::Files).expect("key"), key_der);
    assert!(certificates_from_pem(b"").expect("none").is_empty());
}
