use certificates::query::{Certificates, Error, Snapshot};
use certificates::registry::Pallet;
use certificates::types::Config;

const ISSUER_A: u64 = 1;
const ALICE: u64 = 2;

fn config() -> Config {
    Config { max_metadata_length: 256, max_account_certificates: 16 }
}

/// A snapshot holding one certificate for Alice, issued at height 10 and
/// expiring at height 100, as the state stood at `height`.
fn snapshot_at(height: u64) -> Snapshot {
    let mut state = Pallet::new(config());
    state.issue_cert(ISSUER_A, true, ALICE, b"WHMIS".to_vec(), 100, 10).unwrap();
    Snapshot { height, state }
}

/// Two snapshots of the same history: one before the expiry, one after.
fn service() -> Certificates {
    Certificates::new(vec![snapshot_at(50), snapshot_at(150)])
}

#[test]
fn runtime_error_code_is_one() {
    assert_eq!(Error::RuntimeError.code(), 1);
}

#[test]
fn validity_defaults_to_latest_snapshot() {
    let service = service();
    // The latest snapshot stands at height 150, past the expiry at 100.
    assert_eq!(service.is_certificate_valid(0, None).unwrap(), false);
}

#[test]
fn validity_against_historical_snapshot() {
    let service = service();
    // The early snapshot stands at height 50, before the expiry at 100.
    assert_eq!(service.is_certificate_valid(0, Some(0)).unwrap(), true);
    assert_eq!(service.is_certificate_valid(0, Some(1)).unwrap(), false);
}

#[test]
fn unknown_state_reference_is_a_boundary_error() {
    let service = service();
    let err = service.is_certificate_valid(0, Some(9)).unwrap_err();
    assert_eq!(err.code, 1);
    assert_eq!(err.message, "Unable to check certificate validity.");

    let err = service.get_account_certificates(ALICE, Some(9)).unwrap_err();
    assert_eq!(err.code, 1);
    assert_eq!(err.message, "Unable to get account certificates.");
}

#[test]
fn empty_chain_is_a_boundary_error() {
    let service = Certificates::new(Vec::new());
    assert_eq!(service.is_certificate_valid(0, None).unwrap_err().code, 1);
    assert_eq!(service.get_account_certificates(ALICE, None).unwrap_err().code, 1);
}

#[test]
fn account_query_reads_the_referenced_snapshot() {
    let service = service();
    let certs = service.get_account_certificates(ALICE, Some(1)).unwrap();
    assert_eq!(certs.len(), 1);
    assert_eq!(certs[0].id, 0);
    assert_eq!(certs[0].owner, ALICE);
    assert_eq!(certs[0].metadata, b"WHMIS".to_vec());
    assert!(service.get_account_certificates(99, None).unwrap().is_empty());
}
