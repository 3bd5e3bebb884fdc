//! Decisions of the running service that depend on the configuration only: whether a new
//! configuration can be applied without restarting the listener, how a failed bind is
//! explained, and whether the listener's TLS material is usable.
use crate::config::{CoreConfig, CoreServerConfig, ServerView};
use crate::text::str_eq;
use vstd::prelude::*;

verus! {

/// Whether two listener settings are the same listener: same mode, address and TLS
/// material, and for DoH the same path.
pub open spec fn same_identity_spec(a: ServerView, b: ServerView) -> bool {
    &&& a.mode == b.mode
    &&& a.listen == b.listen
    &&& a.tls_source == b.tls_source
    &&& a.cert_file == b.cert_file
    &&& a.key_file == b.key_file
    &&& a.cert_pem == b.cert_pem
    &&& a.key_pem == b.key_pem
    &&& (a.mode != "doh"@ || a.path == b.path)
}

/// Whether two configurations keep the same listener (so the new one can be applied
/// without rebinding).
pub fn same_server_identity(a: &CoreConfig, b: &CoreConfig) -> (r: bool)
    ensures
        r == same_identity_spec(a@.server, b@.server),
{
    str_eq(a.server.mode.as_str(), b.server.mode.as_str()) && str_eq(a.server.listen.as_str(), b.server.listen.as_str())
        && str_eq(a.server.tls_source.as_str(), b.server.tls_source.as_str()) && str_eq(
        a.server.cert_file.as_str(),
        b.server.cert_file.as_str(),
    ) && str_eq(a.server.key_file.as_str(), b.server.key_file.as_str()) && str_eq(
        a.server.cert_pem.as_str(),
        b.server.cert_pem.as_str(),
    ) && str_eq(a.server.key_pem.as_str(), b.server.key_pem.as_str()) && (!str_eq(a.server.mode.as_str(), "doh")
        || str_eq(a.server.path.as_str(), b.server.path.as_str()))
}

/// Why binding a listener failed.
#[derive(Clone, Copy, Debug, PartialEq, Eq, Structural)]
pub enum BindErrorKind {
    AddrInUse,
    PermissionDenied,
    Other,
}

/// The explanation of a failed bind of the `protocol` listener on `listen`; `detail` is the
/// system's own text, used for other failures.
pub open spec fn bind_error_text(protocol: Seq<char>, listen: Seq<char>, kind: BindErrorKind, detail: Seq<char>) -> Seq<char> {
    match kind {
        BindErrorKind::AddrInUse => protocol + " listen address "@ + listen + " is already in use"@,
        BindErrorKind::PermissionDenied => protocol + " listen address "@ + listen + " permission denied"@,
        BindErrorKind::Other => protocol + " listen address "@ + listen + " bind failed: "@ + detail,
    }
}

/// Explains a failed bind.
pub fn listener_bind_error(protocol: &str, listen: &str, kind: BindErrorKind, detail: &str) -> (r: String)
    ensures
        r@ == bind_error_text(protocol@, listen@, kind, detail@),
{
    let mut r = String::from_str(protocol);
    r.append(" listen address ");
    r.append(listen);
    match kind {
        BindErrorKind::AddrInUse => r.append(" is already in use"),
        BindErrorKind::PermissionDenied => r.append(" permission denied"),
        BindErrorKind::Other => {
            r.append(" bind failed: ");
            r.append(detail);
        },
    }
    r
}

/// Where the listener's certificate and key come from.
#[derive(Clone, Copy, Debug, PartialEq, Eq, Structural)]
pub enum TlsSource {
    Files,
    Inline,
}

/// Why the listener's TLS material is not usable.
#[derive(Clone, Copy, Debug, PartialEq, Eq, Structural)]
pub enum TlsMaterialError {
    /// The source is neither `file` (or empty) nor `inline`.
    SourceInvalid,
    /// The key file holds no supported key.
    NoKeyInFile,
    /// The key PEM holds no supported key.
    NoKeyInline,
    /// No certificate was found.
    NoCertificate,
}

/// The text of a TLS material error.
pub open spec fn tls_material_error_text(e: TlsMaterialError) -> Seq<char> {
    match e {
        TlsMaterialError::SourceInvalid => "server.tls_source must be one of file,inline"@,
        TlsMaterialError::NoKeyInFile => "private key file does not contain a supported key"@,
        TlsMaterialError::NoKeyInline => "private key PEM does not contain a supported key"@,
        TlsMaterialError::NoCertificate => "certificate PEM does not contain a certificate"@,
    }
}

impl TlsMaterialError {
    /// The text of the error.
    pub fn message(&self) -> (m: String)
        ensures
            m@ == tls_material_error_text(*self),
    {
        match self {
            TlsMaterialError::SourceInvalid => String::from_str("server.tls_source must be one of file,inline"),
            TlsMaterialError::NoKeyInFile => String::from_str("private key file does not contain a supported key"),
            TlsMaterialError::NoKeyInline => String::from_str("private key PEM does not contain a supported key"),
            TlsMaterialError::NoCertificate => String::from_str("certificate PEM does not contain a certificate"),
        }
    }
}

/// The source of the TLS material: files for `file` or an empty source, inline for `inline`.
pub open spec fn tls_source_spec(source: Seq<char>) -> Option<TlsSource> {
    if source == "file"@ || source.len() == 0 {
        Some(TlsSource::Files)
    } else if source == "inline"@ {
        Some(TlsSource::Inline)
    } else {
        None
    }
}

/// Where the listener's TLS material comes from.
pub fn server_tls_source(server: &CoreServerConfig) -> (r: Result<TlsSource, TlsMaterialError>)
    ensures
        match r {
            Ok(s) => tls_source_spec(server@.tls_source) == Some(s),
            Err(e) => tls_source_spec(server@.tls_source) is None && e == TlsMaterialError::SourceInvalid,
        },
{
    let s = server.tls_source.as_str();
    if str_eq(s, "file") || s.is_empty() {
        Ok(TlsSource::Files)
    } else if str_eq(s, "inline") {
        Ok(TlsSource::Inline)
    } else {
        Err(TlsMaterialError::SourceInvalid)
    }
}

/// The certificates (their DER bytes) that `rustls_pemfile::certs` finds in PEM data, in
/// order, or the text of the first error it reports.
pub uninterp spec fn pem_certificates(pem: Seq<u8>) -> Result<Seq<Seq<u8>>, Seq<char>>;

/// The DER bytes of the first private key (PKCS#1, PKCS#8 or SEC1) that
/// `rustls_pemfile::private_key` finds in PEM data, none when there is none, or the text of
/// the error it reports.
pub uninterp spec fn pem_private_key(pem: Seq<u8>) -> Result<Option<Seq<u8>>, Seq<char>>;

/// The bytes of each of a list of byte strings.
pub open spec fn der_views(v: Seq<Vec<u8>>) -> Seq<Seq<u8>> {
    v.map_values(|d: Vec<u8>| d@)
}

/// `rustls_pemfile::certs` over PEM bytes, collected until the first error: the DER bytes
/// of each certificate, or the error's text. The result is the named function of the
/// bytes.
#[verifier::external_body]
fn read_pem_certificates(pem: &[u8]) -> (r: Result<Vec<Vec<u8>>, String>)
    ensures
        match r {
            Ok(v) => pem_certificates(pem@) == Ok::<Seq<Seq<u8>>, Seq<char>>(der_views(v@)),
            Err(e) => pem_certificates(pem@) == Err::<Seq<Seq<u8>>, Seq<char>>(e@),
        },
{
    rustls_pemfile::certs(&mut std::io::Cursor::new(pem))
        .map(|item| item.map(|cert| cert.as_ref().to_vec()))
        .collect::<Result<Vec<Vec<u8>>, std::io::Error>>()
        .map_err(|err| err.to_string())
}

/// `rustls_pemfile::private_key` over PEM bytes: the DER bytes of the first private key,
/// none, or the error's text. The result is the named function of the bytes.
#[verifier::external_body]
fn read_pem_private_key(pem: &[u8]) -> (r: Result<Option<Vec<u8>>, String>)
    ensures
        match r {
            Ok(Some(k)) => pem_private_key(pem@) == Ok::<Option<Seq<u8>>, Seq<char>>(Some(k@)),
            Ok(None) => pem_private_key(pem@) == Ok::<Option<Seq<u8>>, Seq<char>>(None),
            Err(e) => pem_private_key(pem@) == Err::<Option<Seq<u8>>, Seq<char>>(e@),
        },
{
    match rustls_pemfile::private_key(&mut std::io::Cursor::new(pem)) {
        Ok(key) => Ok(key.map(|k| k.secret_der().to_vec())),
        Err(err) => Err(err.to_string()),
    }
}

/// Why the listener's TLS material could not be read.
#[derive(Clone, Debug)]
pub enum TlsLoadError {
    Material(TlsMaterialError),
    /// The PEM data could not be read; holds the reader's error text.
    Pem(String),
}

/// A read failure as values.
pub enum TlsLoadErrorView {
    Material(TlsMaterialError),
    Pem(Seq<char>),
}

impl View for TlsLoadError {
    type V = TlsLoadErrorView;

    open spec fn view(&self) -> TlsLoadErrorView {
        match self {
            TlsLoadError::Material(m) => TlsLoadErrorView::Material(*m),
            TlsLoadError::Pem(t) => TlsLoadErrorView::Pem(t@),
        }
    }
}

impl TlsLoadError {
    /// The text of the error.
    pub fn message(&self) -> (m: String)
        ensures
            m@ == match self@ {
                TlsLoadErrorView::Material(e) => tls_material_error_text(e),
                TlsLoadErrorView::Pem(t) => t,
            },
    {
        match self {
            TlsLoadError::Material(e) => e.message(),
            TlsLoadError::Pem(t) => t.clone(),
        }
    }
}

/// The certificates and private key of the listener, as DER bytes.
#[derive(Clone, Debug)]
pub struct TlsMaterial {
    pub certificates: Vec<Vec<u8>>,
    pub private_key: Vec<u8>,
}

/// The certificates read from PEM data, or the reader's error.
pub fn certificates_from_pem(pem: &[u8]) -> (r: Result<Vec<Vec<u8>>, TlsLoadError>)
    ensures
        match r {
            Ok(v) => pem_certificates(pem@) == Ok::<Seq<Seq<u8>>, Seq<char>>(der_views(v@)),
            Err(e) => pem_certificates(pem@) matches Err(t) && e@ == TlsLoadErrorView::Pem(t),
        },
{
    match read_pem_certificates(pem) {
        Ok(v) => Ok(v),
        Err(t) => Err(TlsLoadError::Pem(t)),
    }
}

/// The private key read from PEM data from `source`; refused when the data holds none.
pub fn private_key_from_pem(pem: &[u8], source: TlsSource) -> (r: Result<Vec<u8>, TlsLoadError>)
    ensures
        match r {
            Ok(k) => pem_private_key(pem@) == Ok::<Option<Seq<u8>>, Seq<char>>(Some(k@)),
            Err(e) => match pem_private_key(pem@) {
                Err(t) => e@ == TlsLoadErrorView::Pem(t),
                Ok(None) => e@ == TlsLoadErrorView::Material(missing_key_error(source)),
                Ok(Some(_)) => false,
            },
        },
{
    match read_pem_private_key(pem) {
        Ok(Some(k)) => Ok(k),
        Ok(None) => Err(
            TlsLoadError::Material(
                match source {
                    TlsSource::Files => TlsMaterialError::NoKeyInFile,
                    TlsSource::Inline => TlsMaterialError::NoKeyInline,
                },
            ),
        ),
        Err(t) => Err(TlsLoadError::Pem(t)),
    }
}

/// The error for a source whose key data holds no key.
pub open spec fn missing_key_error(source: TlsSource) -> TlsMaterialError {
    match source {
        TlsSource::Files => TlsMaterialError::NoKeyInFile,
        TlsSource::Inline => TlsMaterialError::NoKeyInline,
    }
}

/// The TLS material of certificates and a key: refused without a certificate.
pub fn tls_material(certificates: Vec<Vec<u8>>, private_key: Vec<u8>) -> (r: Result<TlsMaterial, TlsLoadError>)
    ensures
        match r {
            Ok(m) => certificates@.len() > 0 && m.certificates@ == certificates@ && m.private_key@ == private_key@,
            Err(e) => certificates@.len() == 0 && e@ == TlsLoadErrorView::Material(TlsMaterialError::NoCertificate),
        },
{
    if certificates.len() == 0 {
        return Err(TlsLoadError::Material(TlsMaterialError::NoCertificate));
    }
    Ok(TlsMaterial { certificates, private_key })
}

/// The TLS material read from certificate and key PEM data, first failure first: the
/// certificates, then the key, then that there is a certificate.
pub open spec fn material_spec(source: TlsSource, cert_pem: Seq<u8>, key_pem: Seq<u8>) -> Result<
    (Seq<Seq<u8>>, Seq<u8>),
    TlsLoadErrorView,
> {
    match pem_certificates(cert_pem) {
        Err(t) => Err(TlsLoadErrorView::Pem(t)),
        Ok(certs) => match pem_private_key(key_pem) {
            Err(t) => Err(TlsLoadErrorView::Pem(t)),
            Ok(None) => Err(TlsLoadErrorView::Material(missing_key_error(source))),
            Ok(Some(key)) => if certs.len() == 0 {
                Err(TlsLoadErrorView::Material(TlsMaterialError::NoCertificate))
            } else {
                Ok((certs, key))
            },
        },
    }
}

/// The listener's TLS material: from the configured PEM texts (as UTF-8) for the inline
/// source, from `cert_file_pem` and `key_file_pem` (the contents of the configured files)
/// for the file source; refused for any other source.
pub open spec fn load_spec(server: ServerView, cert_file_pem: Seq<u8>, key_file_pem: Seq<u8>) -> Result<
    (Seq<Seq<u8>>, Seq<u8>),
    TlsLoadErrorView,
> {
    match tls_source_spec(server.tls_source) {
        None => Err(TlsLoadErrorView::Material(TlsMaterialError::SourceInvalid)),
        Some(TlsSource::Files) => material_spec(TlsSource::Files, cert_file_pem, key_file_pem),
        Some(TlsSource::Inline) => material_spec(
            TlsSource::Inline,
            vstd::utf8::encode_utf8(server.cert_pem),
            vstd::utf8::encode_utf8(server.key_pem),
        ),
    }
}

fn material_from_pem(source: TlsSource, cert_pem: &[u8], key_pem: &[u8]) -> (r: Result<TlsMaterial, TlsLoadError>)
    ensures
        match r {
            Ok(m) => material_spec(source, cert_pem@, key_pem@) == Ok::<_, TlsLoadErrorView>(
                (der_views(m.certificates@), m.private_key@),
            ),
            Err(e) => material_spec(source, cert_pem@, key_pem@) == Err::<(Seq<Seq<u8>>, Seq<u8>), _>(e@),
        },
{
    let certificates = certificates_from_pem(cert_pem)?;
    let private_key = private_key_from_pem(key_pem, source)?;
    let ghost certs = certificates@;
    let m = tls_material(certificates, private_key)?;
    assert(der_views(m.certificates@) == der_views(certs));
    Ok(m)
}

/// Reads the listener's TLS material: the configured PEM texts for the inline source, the
/// contents of the configured files (`cert_file_pem`, `key_file_pem`) for the file source.
pub fn load_tls_material(server: &CoreServerConfig, cert_file_pem: &[u8], key_file_pem: &[u8]) -> (r: Result<
    TlsMaterial,
    TlsLoadError,
>)
    ensures
        match r {
            Ok(m) => load_spec(server@, cert_file_pem@, key_file_pem@) == Ok::<_, TlsLoadErrorView>(
                (der_views(m.certificates@), m.private_key@),
            ),
            Err(e) => load_spec(server@, cert_file_pem@, key_file_pem@) == Err::<(Seq<Seq<u8>>, Seq<u8>), _>(e@),
        },
{
    match server_tls_source(server) {
        Err(e) => Err(TlsLoadError::Material(e)),
        Ok(TlsSource::Files) => material_from_pem(TlsSource::Files, cert_file_pem, key_file_pem),
        Ok(TlsSource::Inline) => material_from_pem(
            TlsSource::Inline,
            server.cert_pem.as_str().as_bytes(),
            server.key_pem.as_str().as_bytes(),
        ),
    }
}

/// Whether the listener's TLS material can be read, as `load_tls_material` reads it. The
/// last step of building a TLS server configuration, where `rustls` pairs the certificate
/// chain with the key and refuses keys it does not support, is not made here: `rustls` is
/// not among this library's dependencies, so a key that it would refuse is accepted.
pub fn validate_server_tls_config(server: &CoreServerConfig, cert_file_pem: &[u8], key_file_pem: &[u8]) -> (r: Result<
    (),
    TlsLoadError,
>)
    ensures
        match r {
            Ok(()) => load_spec(server@, cert_file_pem@, key_file_pem@) is Ok,
            Err(e) => load_spec(server@, cert_file_pem@, key_file_pem@) == Err::<(Seq<Seq<u8>>, Seq<u8>), _>(e@),
        },
{
    match load_tls_material(server, cert_file_pem, key_file_pem) {
        Ok(_) => Ok(()),
        Err(e) => Err(e),
    }
}

} // verus!
