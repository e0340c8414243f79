//! The external query service: the two read operations over a chain of
//! registry snapshots, with every internal failure collapsed into one opaque
//! boundary error.

use vstd::prelude::*;

use crate::registry::{resolve_certs, Pallet};
use crate::types::Certificate;

verus! {

/// A registry state as it stood at a given height.
#[derive(Debug)]
pub struct Snapshot {
    /// The height the snapshot was taken at; expiry is evaluated against it.
    pub height: u64,
    /// The registry state at that height.
    pub state: Pallet,
}

/// The read-only query service over a chain of snapshots, oldest first; the
/// last snapshot is the latest known state.
#[derive(Debug)]
pub struct Certificates {
    pub chain: Vec<Snapshot>,
}

/// Why a query failed. Internal error identity never crosses the boundary:
/// every failure is reported as `RuntimeError`.
#[derive(Clone, Copy, PartialEq, Eq, Structural, Debug)]
pub enum Error {
    /// The call into the runtime state failed.
    RuntimeError,
}

impl Error {
    /// The numeric code carried across the boundary.
    pub fn code(&self) -> (r: i32)
        ensures
            r == 1,
    {
        match *self {
            Error::RuntimeError => 1,
        }
    }
}

/// The opaque error that crosses the query boundary: a numeric code and a
/// human-readable message. No internal error identity is carried across.
#[derive(Debug)]
pub struct ErrorObject {
    pub code: i32,
    pub message: String,
}

impl Certificates {
    /// A query service over the given chain of snapshots.
    pub fn new(chain: Vec<Snapshot>) -> (r: Self)
        ensures
            r.chain == chain,
    {
        Certificates { chain }
    }

    /// The snapshot a query runs against: the requested one, or the latest
    /// when no state reference is given; `None` when the reference is
    /// unknown or no state exists at all.
    pub open spec fn resolved(self, at: Option<usize>) -> Option<int> {
        match at {
            Some(i) => if i < self.chain@.len() {
                Some(i as int)
            } else {
                None
            },
            None => if self.chain@.len() > 0 {
                Some(self.chain@.len() - 1)
            } else {
                None
            },
        }
    }

    /// The certificates of `account`, read from the referenced snapshot, in
    /// issuance order. Any failure to reach that state surfaces as the
    /// boundary error with code 1.
    pub fn get_account_certificates(&self, account: u64, at: Option<usize>) -> (r: Result<
        Vec<Certificate>,
        ErrorObject,
    >)
        ensures
            match self.resolved(at) {
                Some(i) => r matches Ok(v) && v.deep_view() == resolve_certs(
                    self.chain@[i].state.certificates@,
                    self.chain@[i].state.account_ids(account),
                ),
                None => r matches Err(e) && e.code == 1 && e.message@
                    == "Unable to get account certificates."@,
            },
    {
        let idx: usize;
        match at {
            Some(i) => {
                if i < self.chain.len() {
                    idx = i;
                } else {
                    return Err(ErrorObject {
                        code: Error::RuntimeError.code(),
                        message: "Unable to get account certificates.".to_string(),
                    });
                }
            },
            None => {
                if self.chain.len() > 0 {
                    idx = self.chain.len() - 1;
                } else {
                    return Err(ErrorObject {
                        code: Error::RuntimeError.code(),
                        message: "Unable to get account certificates.".to_string(),
                    });
                }
            },
        }
        Ok(self.chain[idx].state.get_account_certificates(account))
    }

    /// Whether `cert_id` is valid in the referenced snapshot, evaluated
    /// against that snapshot's height. Any failure to reach that state
    /// surfaces as the boundary error with code 1.
    pub fn is_certificate_valid(&self, cert_id: u64, at: Option<usize>) -> (r: Result<
        bool,
        ErrorObject,
    >)
        ensures
            match self.resolved(at) {
                Some(i) => r == Ok::<bool, ErrorObject>(
                    self.chain@[i].state.spec_is_valid(cert_id, self.chain@[i].height),
                ),
                None => r matches Err(e) && e.code == 1 && e.message@
                    == "Unable to check certificate validity."@,
            },
    {
        let idx: usize;
        match at {
            Some(i) => {
                if i < self.chain.len() {
                    idx = i;
                } else {
                    return Err(ErrorObject {
                        code: Error::RuntimeError.code(),
                        message: "Unable to check certificate validity.".to_string(),
                    });
                }
            },
            None => {
                if self.chain.len() > 0 {
                    idx = self.chain.len() - 1;
                } else {
                    return Err(ErrorObject {
                        code: Error::RuntimeError.code(),
                        message: "Unable to check certificate validity.".to_string(),
                    });
                }
            },
        }
        let snap = &self.chain[idx];
        Ok(snap.state.is_certificate_valid(cert_id, snap.height))
    }
}

} // verus!
