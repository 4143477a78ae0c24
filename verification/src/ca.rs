//! The private certificate authority.
//!
//! At startup the gateway generates a self-signed root ("Secure Proxy CA");
//! per connection it mints a fresh leaf certificate for exactly one hostname,
//! signed under the root with an ephemeral key.  The cryptography is done by
//! the `rcgen` crate behind trusted wrappers; the verified code sequences the
//! steps and guarantees that a leaf always records the hostname it was
//! minted for.

use vstd::prelude::*;

verus! {

use vstd::slice::slice_to_vec;
use vstd::utf8::valid_utf8;
use crate::text::utf8_string;

#[verifier::external_type_specification]
#[verifier::external_body]
pub struct ExCertificate(rcgen::Certificate);

#[verifier::external_type_specification]
#[verifier::external_body]
pub struct ExCertificateParams(rcgen::CertificateParams);

#[verifier::external_type_specification]
#[verifier::external_body]
pub struct ExKeyPair(rcgen::KeyPair);

#[verifier::external_type_specification]
#[verifier::external_body]
#[verifier::reject_recursive_types(S)]
pub struct ExIssuer<'a, S>(rcgen::Issuer<'a, S>);

#[verifier::external_type_specification]
#[verifier::external_body]
pub struct ExRcgenError(rcgen::Error);

/// Why certificate material could not be produced.
#[derive(Clone, Copy, PartialEq, Eq, Structural, Debug)]
pub enum CertError {
    /// A fresh keypair could not be generated.
    KeyGenFailure,
    /// The certificate could not be built or signed (this covers a hostname
    /// the X.509 machinery rejects, such as one that is not UTF-8).
    SignFailure,
}

/// A per-connection leaf: the DER certificate chain entry and private key,
/// together with the hostname the leaf was minted for.
#[derive(Debug)]
pub struct LeafCert {
    pub host: Vec<u8>,
    pub cert_der: Vec<u8>,
    pub key_der: Vec<u8>,
}

/// Relies on rcgen::CertificateParams::default and
/// rcgen::DistinguishedName::{new, push}: builds the root parameters with
/// `BasicConstraints = CA:TRUE` and the fixed root names.
#[verifier::external_body]
fn root_params() -> rcgen::CertificateParams {
    let mut params = rcgen::CertificateParams::default();
    params.is_ca = rcgen::IsCa::Ca(rcgen::BasicConstraints::Unconstrained);
    let mut dn = rcgen::DistinguishedName::new();
    dn.push(rcgen::DnType::CommonName, "Secure Proxy CA");
    dn.push(rcgen::DnType::OrganizationName, "Secure Proxy");
    params.distinguished_name = dn;
    params
}

/// Relies on rcgen::KeyPair::generate: a fresh ECDSA P-256 keypair, or an
/// error.
#[verifier::external_body]
fn generate_keypair() -> Result<rcgen::KeyPair, rcgen::Error> {
    rcgen::KeyPair::generate()
}

/// Relies on rcgen::CertificateParams::self_signed: a certificate over the
/// given parameters, signed with the given key.
#[verifier::external_body]
fn self_sign(
    params: &rcgen::CertificateParams,
    key: &rcgen::KeyPair,
) -> Result<rcgen::Certificate, rcgen::Error> {
    params.self_signed(key)
}

/// Relies on rcgen::Issuer::new: packages signing parameters and key as the
/// issuing authority.
#[verifier::external_body]
fn into_issuer(
    params: rcgen::CertificateParams,
    key: rcgen::KeyPair,
) -> rcgen::Issuer<'static, rcgen::KeyPair> {
    rcgen::Issuer::new(params, key)
}

/// Relies on rcgen::CertificateParams::new: leaf parameters whose subject
/// alternative name is the given hostname.
#[verifier::external_body]
fn leaf_params(name: &String) -> Result<rcgen::CertificateParams, rcgen::Error> {
    rcgen::CertificateParams::new(vec![name.clone()])
}

/// Relies on rcgen::DistinguishedName::{new, push}: sets the leaf's common
/// name.
#[verifier::external_body]
fn set_common_name(params: &mut rcgen::CertificateParams, name: &String) {
    let mut dn = rcgen::DistinguishedName::new();
    dn.push(rcgen::DnType::CommonName, name.as_str());
    params.distinguished_name = dn;
}

/// Relies on rcgen::CertificateParams::signed_by: a certificate over the
/// parameters and public key, signed by the issuer.
#[verifier::external_body]
fn sign_under(
    params: &rcgen::CertificateParams,
    key: &rcgen::KeyPair,
    issuer: &rcgen::Issuer<'static, rcgen::KeyPair>,
) -> Result<rcgen::Certificate, rcgen::Error> {
    params.signed_by(key, issuer)
}

/// Relies on rcgen::Certificate::der: the DER encoding of the certificate.
#[verifier::external_body]
fn cert_der_bytes(cert: &rcgen::Certificate) -> Vec<u8> {
    cert.der().to_vec()
}

/// Relies on rcgen::Certificate::pem: the PEM encoding of the certificate.
#[verifier::external_body]
fn cert_pem_string(cert: &rcgen::Certificate) -> String {
    cert.pem()
}

/// Relies on rcgen::KeyPair::serialize_der: the PKCS#8 DER encoding of the
/// private key.
#[verifier::external_body]
fn keypair_der_bytes(key: &rcgen::KeyPair) -> Vec<u8> {
    key.serialize_der()
}

/// Relies on rcgen::KeyPair::serialize_pem: the PKCS#8 PEM encoding of the
/// private key.
#[verifier::external_body]
fn keypair_pem_string(key: &rcgen::KeyPair) -> String {
    key.serialize_pem()
}

/// The root material: the self-signed root certificate and the issuing
/// authority built from the root key.  Shared read-only by all connections.
pub struct CaAuthority {
    pub root_cert: rcgen::Certificate,
    pub issuer: rcgen::Issuer<'static, rcgen::KeyPair>,
    pub root_cert_pem: String,
    pub root_key_pem: String,
}

impl CaAuthority {
    /// Generate a fresh root: CA parameters, a new keypair, a self-signed
    /// certificate, and the issuer handle used to sign leaves.
    pub fn new() -> Result<CaAuthority, CertError> {
        let params = root_params();
        let key = match generate_keypair() {
            Ok(k) => k,
            Err(_) => {
                return Err(CertError::KeyGenFailure);
            },
        };
        let cert = match self_sign(&params, &key) {
            Ok(c) => c,
            Err(_) => {
                return Err(CertError::SignFailure);
            },
        };
        let cert_pem = cert_pem_string(&cert);
        let key_pem = keypair_pem_string(&key);
        let issuer = into_issuer(params, key);
        Ok(
            CaAuthority {
                root_cert: cert,
                issuer,
                root_cert_pem: cert_pem,
                root_key_pem: key_pem,
            },
        )
    }

    /// The root certificate, PEM encoded, for operators to distribute.
    pub fn root_cert_pem(&self) -> (r: String)
        ensures
            r@ == self.root_cert_pem@,
    {
        self.root_cert_pem.clone()
    }

    /// The root private key, PEM encoded, for protected persistence.
    pub fn root_key_pem(&self) -> (r: String)
        ensures
            r@ == self.root_key_pem@,
    {
        self.root_key_pem.clone()
    }

    /// Mint a leaf for exactly one hostname: fresh parameters carrying the
    /// hostname as subject alternative name and common name, a fresh
    /// ephemeral keypair, signed under the root.  The leaf records the
    /// hostname it was minted for.
    pub fn generate_cert_for_host(&self, hostname: &[u8]) -> (r: Result<LeafCert, CertError>)
        ensures
            r matches Ok(leaf) ==> leaf.host@ == hostname@,
            !valid_utf8(hostname@) ==> r is Err,
    {
        let name = match utf8_string(hostname) {
            Some(n) => n,
            None => {
                return Err(CertError::SignFailure);
            },
        };
        let mut params = match leaf_params(&name) {
            Ok(p) => p,
            Err(_) => {
                return Err(CertError::SignFailure);
            },
        };
        set_common_name(&mut params, &name);
        let key = match generate_keypair() {
            Ok(k) => k,
            Err(_) => {
                return Err(CertError::KeyGenFailure);
            },
        };
        let cert = match sign_under(&params, &key, &self.issuer) {
            Ok(c) => c,
            Err(_) => {
                return Err(CertError::SignFailure);
            },
        };
        let host = slice_to_vec(hostname);
        Ok(LeafCert { host, cert_der: cert_der_bytes(&cert), key_der: keypair_der_bytes(&key) })
    }
}

} // verus!
