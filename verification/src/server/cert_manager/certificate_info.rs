//! What is known of a certificate.

use std::time::SystemTime;

use vstd::prelude::*;

verus! {

#[verifier::external_type_specification]
#[verifier::external_body]
pub struct ExSystemTime(SystemTime);

/// A certificate's subject, issuer, validity, serial number, algorithms and
/// host names.
#[derive(Debug)]
pub struct CertificateInfo {
    /// Subject.
    pub subject: String,
    /// Issuer.
    pub issuer: String,
    /// Start of validity.
    pub not_before: SystemTime,
    /// End of validity.
    pub not_after: SystemTime,
    /// Serial number.
    pub serial_number: String,
    /// Signature algorithm.
    pub signature_algorithm: String,
    /// Public key algorithm.
    pub public_key_algorithm: String,
    /// Host names.
    pub hostnames: Vec<String>,
}

} // verus!
