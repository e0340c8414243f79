//! Core data model: configuration bounds, certificate records and their
//! mathematical views, registry events and registry errors.

use vstd::prelude::*;

verus! {

/// Configuration of the registry: the two independent capacity bounds.
#[derive(Clone, Copy, PartialEq, Eq, Structural, Debug)]
pub struct Config {
    /// Maximum length, in bytes, of the metadata attached to a certificate.
    pub max_metadata_length: u64,
    /// Maximum number of certificate ids recorded per account.
    pub max_account_certificates: u64,
}

/// A certificate record: a revocable, optionally expiring statement that
/// `issuer` granted a qualification to `owner`.
///
/// `expires_at == 0` means the certificate never expires; any other value is
/// the first height at which it is no longer valid.
#[derive(Debug)]
pub struct Certificate {
    /// Unique handle, assigned once at issuance and never reused.
    pub id: u64,
    /// Account the certificate was issued to; immutable after issuance.
    pub owner: u64,
    /// Account that issued the certificate; the only account that may revoke it.
    pub issuer: u64,
    /// Free-form bytes, bounded by `Config::max_metadata_length`.
    pub metadata: Vec<u8>,
    /// Height at which the certificate was issued.
    pub issued_at: u64,
    /// One-way flag: starts `false`, may only ever be set to `true`.
    pub revoked: bool,
    /// First height at which the certificate is expired, or 0 for "never".
    pub expires_at: u64,
}

/// Mathematical value of a [`Certificate`]: the same fields with the metadata
/// bytes abstracted to a sequence.
pub struct CertificateData {
    pub id: u64,
    pub owner: u64,
    pub issuer: u64,
    pub metadata: Seq<u8>,
    pub issued_at: u64,
    pub revoked: bool,
    pub expires_at: u64,
}

impl View for Certificate {
    type V = CertificateData;

    open spec fn view(&self) -> CertificateData {
        CertificateData {
            id: self.id,
            owner: self.owner,
            issuer: self.issuer,
            metadata: self.metadata@,
            issued_at: self.issued_at,
            revoked: self.revoked,
            expires_at: self.expires_at,
        }
    }
}

impl DeepView for Certificate {
    type V = CertificateData;

    open spec fn deep_view(&self) -> CertificateData {
        self@
    }
}

impl Clone for Certificate {
    fn clone(&self) -> (r: Self)
        ensures
            r@ == self@,
    {
        let r = Certificate {
            id: self.id,
            owner: self.owner,
            issuer: self.issuer,
            metadata: self.metadata.clone(),
            issued_at: self.issued_at,
            revoked: self.revoked,
            expires_at: self.expires_at,
        };
        proof {
            assert(r.metadata@ =~= self.metadata@);
        }
        r
    }
}

/// Notification emitted by a successful write operation, recorded in the
/// registry's event log in operation order.
#[derive(Clone, Copy, PartialEq, Eq, Structural, Debug)]
pub enum Event {
    /// A certificate was issued.
    CertificateIssued { id: u64, owner: u64, issuer: u64 },
    /// A certificate was revoked.
    CertificateRevoked { id: u64 },
}

/// Why a write operation was rejected. A rejected operation leaves the
/// registry state exactly as it was.
#[derive(Clone, Copy, PartialEq, Eq, Structural, Debug)]
pub enum Error {
    /// The external authorization policy denied the caller.
    BadOrigin,
    /// The id space is exhausted: advancing the allocator would overflow.
    CertificateAlreadyExists,
    /// No certificate with the given id has been issued.
    CertificateNotFound,
    /// The certificate was already revoked.
    CertificateAlreadyRevoked,
    /// The caller is not the issuer recorded on the certificate.
    NotCertificateOwner,
    /// The metadata is longer than `Config::max_metadata_length`.
    MetadataTooLong,
    /// The recipient's account index is at `Config::max_account_certificates`.
    TooManyCertificates,
}

} // verus!
