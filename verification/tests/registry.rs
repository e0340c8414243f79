use certificates::registry::Pallet;
use certificates::types::{Config, Error, Event};

const ISSUER_A: u64 = 1;
const ALICE: u64 = 2;
const BOB: u64 = 3;

fn config() -> Config {
    Config { max_metadata_length: 256, max_account_certificates: 16 }
}

#[test]
fn issue_and_revoke_scenario() {
    // At height 10, IssuerA issues a WHMIS certificate to Alice expiring at 100.
    let mut registry = Pallet::new(config());
    let id = registry
        .issue_cert(ISSUER_A, true, ALICE, b"WHMIS".to_vec(), 100, 10)
        .expect("issuance should succeed");
    assert_eq!(id, 0);

    let cert = registry.get_certificate(0).expect("certificate should exist");
    assert_eq!(cert.id, 0);
    assert_eq!(cert.owner, ALICE);
    assert_eq!(cert.issuer, ISSUER_A);
    assert_eq!(cert.metadata, b"WHMIS".to_vec());
    assert_eq!(cert.issued_at, 10);
    assert_eq!(cert.expires_at, 100);
    assert!(!cert.revoked);

    assert!(registry.is_certificate_valid(0, 50));
    assert!(!registry.is_certificate_valid(0, 100));

    registry.revoke_cert(ISSUER_A, true, 0).expect("revocation should succeed");
    assert!(registry.get_certificate(0).unwrap().revoked);
    assert!(!registry.is_certificate_valid(0, 50));
}

#[test]
fn ids_are_unique_and_increasing() {
    let mut registry = Pallet::new(config());
    let a = registry.issue_cert(ISSUER_A, true, ALICE, b"a".to_vec(), 0, 1).unwrap();
    let b = registry.issue_cert(ISSUER_A, true, BOB, b"b".to_vec(), 0, 2).unwrap();
    let c = registry.issue_cert(ISSUER_A, true, ALICE, b"c".to_vec(), 0, 3).unwrap();
    assert_eq!((a, b, c), (0, 1, 2));
    assert!(a < b && b < c);
}

#[test]
fn revoke_unknown_id_fails() {
    let mut registry = Pallet::new(config());
    assert_eq!(registry.revoke_cert(ISSUER_A, true, 7), Err(Error::CertificateNotFound));
}

#[test]
fn revoke_twice_fails_and_revocation_sticks() {
    let mut registry = Pallet::new(config());
    registry.issue_cert(ISSUER_A, true, ALICE, b"m".to_vec(), 0, 1).unwrap();
    registry.revoke_cert(ISSUER_A, true, 0).unwrap();
    assert_eq!(registry.revoke_cert(ISSUER_A, true, 0), Err(Error::CertificateAlreadyRevoked));
    // The failed second attempt leaves the certificate revoked.
    assert!(registry.get_certificate(0).unwrap().revoked);
}

#[test]
fn unissued_id_is_invalid() {
    let registry = Pallet::new(config());
    assert!(!registry.is_certificate_valid(0, 0));
    assert!(!registry.is_certificate_valid(41, 1000));
}

#[test]
fn expiry_boundary_is_strict() {
    let mut registry = Pallet::new(config());
    registry.issue_cert(ISSUER_A, true, ALICE, b"m".to_vec(), 500, 1).unwrap();
    assert!(registry.is_certificate_valid(0, 499));
    assert!(!registry.is_certificate_valid(0, 500));
    assert!(!registry.is_certificate_valid(0, 501));
    assert!(!registry.is_certificate_valid(0, u64::MAX));
}

#[test]
fn zero_expiry_never_expires() {
    let mut registry = Pallet::new(config());
    registry.issue_cert(ISSUER_A, true, ALICE, b"m".to_vec(), 0, 1).unwrap();
    assert!(registry.is_certificate_valid(0, 0));
    assert!(registry.is_certificate_valid(0, 1_000_000));
    assert!(registry.is_certificate_valid(0, u64::MAX));
    registry.revoke_cert(ISSUER_A, true, 0).unwrap();
    assert!(!registry.is_certificate_valid(0, 0));
}

#[test]
fn account_certificates_are_exact_and_ordered() {
    let mut registry = Pallet::new(config());
    registry.issue_cert(ISSUER_A, true, ALICE, b"first".to_vec(), 0, 1).unwrap();
    registry.issue_cert(ISSUER_A, true, BOB, b"other".to_vec(), 0, 2).unwrap();
    registry.issue_cert(ISSUER_A, true, ALICE, b"second".to_vec(), 0, 3).unwrap();

    let alices = registry.get_account_certificates(ALICE);
    assert_eq!(alices.len(), 2);
    assert_eq!(alices[0].id, 0);
    assert_eq!(alices[0].metadata, b"first".to_vec());
    assert_eq!(alices[1].id, 2);
    assert_eq!(alices[1].metadata, b"second".to_vec());
    assert!(alices.iter().all(|c| c.owner == ALICE));

    let bobs = registry.get_account_certificates(BOB);
    assert_eq!(bobs.len(), 1);
    assert_eq!(bobs[0].id, 1);

    assert!(registry.get_account_certificates(99).is_empty());
}

#[test]
fn oversized_metadata_is_rejected_without_side_effects() {
    let mut registry = Pallet::new(config());
    let oversized = vec![0u8; 257];
    assert_eq!(
        registry.issue_cert(ISSUER_A, true, ALICE, oversized, 0, 1),
        Err(Error::MetadataTooLong)
    );
    // Nothing was committed: the allocator did not advance and no state changed.
    assert_eq!(registry.certificate_count, 0);
    assert!(registry.certificates.is_empty());
    assert!(registry.account_certificates.is_empty());
    assert!(registry.events.is_empty());
    // The next issuance still gets id 0.
    assert_eq!(registry.issue_cert(ISSUER_A, true, ALICE, b"ok".to_vec(), 0, 1), Ok(0));
}

#[test]
fn owner_who_is_not_issuer_cannot_revoke() {
    let mut registry = Pallet::new(config());
    registry.issue_cert(ISSUER_A, true, ALICE, b"m".to_vec(), 0, 1).unwrap();
    // Alice owns the certificate but did not issue it.
    assert_eq!(registry.revoke_cert(ALICE, true, 0), Err(Error::NotCertificateOwner));
    assert!(!registry.get_certificate(0).unwrap().revoked);
}

#[test]
fn denied_caller_cannot_write() {
    let mut registry = Pallet::new(config());
    assert_eq!(
        registry.issue_cert(ISSUER_A, false, ALICE, b"m".to_vec(), 0, 1),
        Err(Error::BadOrigin)
    );
    registry.issue_cert(ISSUER_A, true, ALICE, b"m".to_vec(), 0, 1).unwrap();
    assert_eq!(registry.revoke_cert(ISSUER_A, false, 0), Err(Error::BadOrigin));
    assert!(!registry.get_certificate(0).unwrap().revoked);
}

#[test]
fn full_account_index_rejects_issuance() {
    let mut registry = Pallet::new(Config { max_metadata_length: 256, max_account_certificates: 1 });
    registry.issue_cert(ISSUER_A, true, ALICE, b"m".to_vec(), 0, 1).unwrap();
    assert_eq!(
        registry.issue_cert(ISSUER_A, true, ALICE, b"n".to_vec(), 0, 2),
        Err(Error::TooManyCertificates)
    );
    // The rejection committed nothing; another account can still receive one.
    assert_eq!(registry.certificate_count, 1);
    assert_eq!(registry.issue_cert(ISSUER_A, true, BOB, b"n".to_vec(), 0, 2), Ok(1));
}

#[test]
fn id_space_exhaustion_is_reported() {
    let mut allocator = Pallet {
        config: config(),
        certificate_count: u64::MAX,
        certificates: Vec::new(),
        account_certificates: Vec::new(),
        events: Vec::new(),
    };
    assert_eq!(allocator.next_certificate_id(), Err(Error::CertificateAlreadyExists));
    assert_eq!(allocator.certificate_count, u64::MAX);
}

#[test]
fn allocator_advances_by_one() {
    let mut registry = Pallet::new(config());
    assert_eq!(registry.next_certificate_id(), Ok(0));
    assert_eq!(registry.certificate_count, 1);
    assert_eq!(registry.next_certificate_id(), Ok(1));
}

#[test]
fn events_record_writes_in_order() {
    let mut registry = Pallet::new(config());
    registry.issue_cert(ISSUER_A, true, ALICE, b"m".to_vec(), 0, 1).unwrap();
    registry.issue_cert(ISSUER_A, true, BOB, b"n".to_vec(), 0, 2).unwrap();
    registry.revoke_cert(ISSUER_A, true, 0).unwrap();
    assert_eq!(
        registry.events,
        vec![
            Event::CertificateIssued { id: 0, owner: ALICE, issuer: ISSUER_A },
            Event::CertificateIssued { id: 1, owner: BOB, issuer: ISSUER_A },
            Event::CertificateRevoked { id: 0 },
        ]
    );
}
