//! Owned X.509 certificate inspection with verified field extraction.
//!
//! Parsing is not signature verification, chain building, trust, revocation, or
//! application policy. No system clock or randomness is read. The caller supplies
//! a timestamp to [`Validity::contains`] if it wants a validity-period check.
//! Unknown algorithm/extension OIDs and their encoded data remain available.
pub mod algorithms;
pub mod backend;
pub mod certificate;
pub mod decoding;
pub mod encoding;
pub mod enrichment;
pub mod extensions;
pub mod inspection;
pub mod ip;
pub mod keys;
pub mod layout;
pub mod names;
pub mod oids;
pub mod report;
pub mod rustcrypto;
pub mod schema;
pub mod summary;
pub mod text;

use vstd::prelude::*;

pub use algorithms::{AlgorithmInfo, KeyDataStatus, ParameterStatus, PssParameters};
pub use certificate::{parse_der, parse_der_with_names, parse_pem, parse_pem_with_names, CertificateInfo, PublicKeyInfo};
pub use extensions::additional::{DirectoryAttribute, NetscapeCertificateType, PolicyConstraints, PolicyMapping, PrivateKeyUsagePeriod};
pub use extensions::constraints::{ConstraintName, GeneralSubtree, NameConstraints};
pub use extensions::device::{CertificateTemplate, FidoTransports};
pub use extensions::locations::{AccessDescription, AuthorityKeyIdentifier, DistributionPoint, DistributionPointName};
pub use extensions::policies::{CertificatePolicy, PolicyQualifier, PolicyQualifierDetails};
pub use extensions::transparency::{SctEntry, SignedCertificateTimestamp};
pub use extensions::{ExtensionDetails, ExtensionInfo, GeneralName, KeyPurpose, KeyUsage};
pub use names::{DistinguishedName, NameAttribute};
pub use extensions::details::NameDetails;
pub use keys::PublicKeyDetails;
pub use summary::{AlgorithmSummary, CertificateSummary, ExtensionSummary, NameSummary, PublicKeySummary};
pub use decoding::{DecodeDiagnostic, DecodeIssue, IntegerValue};
pub use oids::{InvalidOid, OidNames};

verus! {

/// Limits for a single certificate input; defaults to 1 MiB.
#[derive(Clone, Copy, Debug)]
pub struct ParseOptions {
    /// Maximum input bytes, also checked against decoded DER for PEM input.
    /// PEM limits include its armor, base64 and surrounding whitespace.
    pub max_input_bytes: usize,
}

impl Default for ParseOptions {
    /// A 1 MiB input budget.
    fn default() -> (r: Self)
        ensures
            r.max_input_bytes == 1024 * 1024,
    {
        ParseOptions { max_input_bytes: 1024 * 1024 }
    }
}

/// Typed local parsing failures, distinct from card status and transport errors.
#[derive(Clone, Copy, Debug, PartialEq, Eq, Structural)]
#[non_exhaustive]
pub enum Error {
    /// A zero parsing budget was supplied.
    InvalidOptions,
    /// Encoded input or decoded DER exceeds the caller's budget.
    LimitExceeded,
    /// PEM armor/base64 is invalid, or input contains extra text/blocks.
    InvalidPem,
    /// The PEM label is not CERTIFICATE.
    UnexpectedPemLabel,
    /// Input could not be decoded as an X.509 certificate.
    InvalidCertificate,
    /// Bytes follow the single DER certificate.
    TrailingData,
    /// Inner and outer signature algorithm identifiers disagree.
    InconsistentSignatureAlgorithm,
}

/// Certificate validity interval as signed Unix seconds, independent of a clock.
#[derive(Clone, Copy, Debug, PartialEq, Eq, Structural)]
pub struct Validity {
    /// Inclusive notBefore timestamp, measured from 1970-01-01T00:00:00Z.
    pub not_before_unix: i64,
    /// Inclusive notAfter timestamp, measured from 1970-01-01T00:00:00Z.
    pub not_after_unix: i64,
}

impl Validity {
    /// The encoded interval includes the timestamp, both ends inclusive.
    pub open spec fn includes(self, unix_seconds: int) -> bool {
        self.not_before_unix <= unix_seconds && unix_seconds <= self.not_after_unix
    }

    /// Check only the inclusive time interval at an explicit caller timestamp.
    /// This does not establish certificate trust, role, revocation or signature validity.
    pub fn contains(self, unix_seconds: i64) -> (r: bool)
        ensures
            r == self.includes(unix_seconds as int),
    {
        self.not_before_unix <= unix_seconds && unix_seconds <= self.not_after_unix
    }
}

/// The budget check's outcome: a zero budget is invalid, a longer input exceeds it.
pub open spec fn limit_outcome(len: nat, options: ParseOptions) -> Result<(), Error> {
    if options.max_input_bytes == 0 {
        Err(Error::InvalidOptions)
    } else if len > options.max_input_bytes {
        Err(Error::LimitExceeded)
    } else {
        Ok(())
    }
}

/// Check an encoded input against the caller's budget.
pub fn check_limit(bytes: &[u8], options: ParseOptions) -> (r: Result<(), Error>)
    ensures
        r == limit_outcome(bytes@.len(), options),
{
    if options.max_input_bytes == 0 {
        return Err(Error::InvalidOptions);
    }
    if bytes.len() > options.max_input_bytes {
        return Err(Error::LimitExceeded);
    }
    Ok(())
}

/// A non-empty validity interval includes both of its ends and nothing just
/// outside them.
pub proof fn law_validity_includes_exactly_its_ends(v: Validity)
    requires
        v.not_before_unix <= v.not_after_unix,
    ensures
        v.includes(v.not_before_unix as int),
        v.includes(v.not_after_unix as int),
        !v.includes(v.not_before_unix - 1),
        !v.includes(v.not_after_unix + 1),
{
}

/// An input within a nonzero budget passes the budget check; the check fails
/// only for a zero budget or a longer input.
pub proof fn law_budget_admits_inputs_up_to_the_limit(len: nat, options: ParseOptions)
    requires
        options.max_input_bytes > 0,
    ensures
        limit_outcome(len, options) is Ok <==> len <= options.max_input_bytes,
{
}

} // verus!
