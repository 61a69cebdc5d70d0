//! TLS settings of the gateway.

use vstd::prelude::*;
use vstd::string::StringExecFns;
use crate::paths::{path_join, join_path};
use crate::text::lit;

verus! {

/// Where the gateway's certificate and key are.
#[derive(Debug, Clone)]
pub struct TlsConfig {
    /// Path to the certificate file (PEM)
    pub cert_path: String,
    /// Path to the private key file (PEM)
    pub key_path: String,
    /// Whether HTTPS is enabled
    pub enabled: bool,
}

/// Why TLS could not be set up.
#[derive(Debug, Clone)]
pub enum TlsError {
    /// No certificate at this path.
    CertificateNotFound(String),
    /// No private key at this path.
    PrivateKeyNotFound(String),
    /// Certificates are not generated here.
    GenerationNotImplemented,
}

impl TlsError {
    /// The text shown for the error; paths are shown in double quotes.
    pub fn message(&self) -> (r: String)
        ensures
            r@ == match self {
                TlsError::CertificateNotFound(p) => "Certificate file not found: \""@ + p@ + "\""@,
                TlsError::PrivateKeyNotFound(p) => "Private key file not found: \""@ + p@ + "\""@,
                TlsError::GenerationNotImplemented => "Self-signed certificate generation not implemented. Please use openssl to generate certificates manually."@,
            },
    {
        match self {
            TlsError::CertificateNotFound(p) => {
                let mut m = lit("Certificate file not found: \"");
                m.append(p.as_str());
                m.append("\"");
                m
            },
            TlsError::PrivateKeyNotFound(p) => {
                let mut m = lit("Private key file not found: \"");
                m.append(p.as_str());
                m.append("\"");
                m
            },
            TlsError::GenerationNotImplemented => lit(
                "Self-signed certificate generation not implemented. Please use openssl to generate certificates manually.",
            ),
        }
    }
}

impl TlsConfig {
    /// HTTPS with the given certificate and key.
    pub fn new(cert_path: String, key_path: String) -> (r: Self)
        ensures
            r.cert_path == cert_path,
            r.key_path == key_path,
            r.enabled,
    {
        TlsConfig { cert_path, key_path, enabled: true }
    }

    /// Checks that the files exist, given whether the certificate and the
    /// key were found: the certificate is checked first.
    pub fn validate(&self, cert_exists: bool, key_exists: bool) -> (r: Result<(), TlsError>)
        ensures
            !cert_exists ==> (r matches Err(TlsError::CertificateNotFound(p)) && p@ == self.cert_path@),
            cert_exists && !key_exists ==> (r matches Err(TlsError::PrivateKeyNotFound(p)) && p@
                == self.key_path@),
            cert_exists && key_exists ==> r is Ok,
    {
        if !cert_exists {
            return Err(TlsError::CertificateNotFound(crate::text::copy_string(self.cert_path.as_str())));
        }
        if !key_exists {
            return Err(TlsError::PrivateKeyNotFound(crate::text::copy_string(self.key_path.as_str())));
        }
        Ok(())
    }
}

/// Self-signed certificates are not generated: the caller is told to use
/// openssl.
pub fn generate_self_signed_cert(domain: &str, cert_path: &str, key_path: &str) -> (r: Result<
    (),
    TlsError,
>)
    ensures
        r matches Err(TlsError::GenerationNotImplemented),
{
    Err(TlsError::GenerationNotImplemented)
}

/// The home directory of the user (`dirs::home_dir`), as text. Whether there
/// is one, and which, depends on the environment.
#[verifier::external_body]
fn home_dir() -> (r: Option<String>) {
    dirs::home_dir().map(|p| p.to_string_lossy().to_string())
}

/// The certificate directory below a home directory (`.` without one):
/// `.pied-piper/certs`.
pub fn cert_dir_under(home: Option<String>) -> (r: String)
    ensures
        r@ == path_join(
            path_join(
                match home {
                    Some(h) => h@,
                    None => "."@,
                },
                ".pied-piper"@,
            ),
            "certs"@,
        ),
{
    let base = match home {
        Some(h) => h,
        None => lit("."),
    };
    let dir = join_path(base.as_str(), ".pied-piper");
    join_path(dir.as_str(), "certs")
}

/// The default certificate directory: `.pied-piper/certs` below the home
/// directory, or below `.` without one (see `cert_dir_under`).
pub fn default_cert_dir() -> (r: String)
    ensures
        exists|base: Seq<char>| r@ == path_join(path_join(base, ".pied-piper"@), "certs"@),
{
    let home = home_dir();
    let ghost base = match &home {
        Some(h) => h@,
        None => "."@,
    };
    let r = cert_dir_under(home);
    assert(r@ == path_join(path_join(base, ".pied-piper"@), "certs"@));
    r
}

} // verus!
