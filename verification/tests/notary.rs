use notary::Address;
use notary::DocumentStatus;
use notary::IdentityClaim;
use notary::MetaEntry;
use notary::NotaryContract;
use notary::NotaryError;
use notary::NotaryEvent;
use notary::Signature;
use notary::VersionStatus;

fn hash32(b: u8) -> Vec<u8> {
    vec![b; 32]
}

fn meta_none() -> Vec<MetaEntry> {
    Vec::new()
}

fn sig_of(signer: Address, now: u64) -> Signature {
    Signature {
        signer,
        timestamp: now,
        signature_data: vec![7u8; 64],
        claim_reference: vec![9u8; 32],
    }
}

fn claim_of(authority: Address, now: u64, expires_at: u64) -> IdentityClaim {
    IdentityClaim {
        authority,
        claim_type: "ID".to_string(),
        claim_value: vec![3u8; 32],
        signature: vec![4u8; 64],
        issued_at: now,
        expires_at,
        metadata: Vec::new(),
    }
}

/// Helper function to setup contract testing environment
fn setup() -> (Address, NotaryContract) {
    let admin = Address { id: 1 };
    let mut contract = NotaryContract::new();
    contract.initialize(admin).unwrap();
    (admin, contract)
}

#[test]
fn test_initialize() {
    let mut contract = NotaryContract::new();
    let admin = Address { id: 1 };
    assert!(contract.initialize(admin).is_ok());
}

#[test]
fn test_initialize_already_exists() {
    let (admin, mut contract) = setup();
    // Try to initialize again
    assert!(contract.initialize(admin).is_err());
}

#[test]
fn test_document_lifecycle() {
    let (_admin, mut contract) = setup();
    let creator = Address { id: 10 };
    let signer = Address { id: 11 };
    let now = 0u64;

    // Create document
    let hash = hash32(0xAA);
    let title = "Test Document".to_string();
    let signers = vec![signer];
    assert!(contract.create_document(creator, now, hash.clone(), title, signers, meta_none()).is_ok());

    // Test version creation
    let version_hash = hash32(0xBB);
    let version_title = "Version 2".to_string();
    assert!(contract.add_version(creator, now, hash.clone(), version_hash, version_title, meta_none()).is_ok());

    // Test document signing
    let signature = sig_of(signer, now);
    assert!(contract.sign_document(now, hash.clone(), signature).is_ok());

    // Verify document
    let document = contract.verify_document(&hash).unwrap();
    assert_eq!(document.status, DocumentStatus::Active);
    assert_eq!(document.current_version, 1);
}

#[test]
fn test_authority_management() {
    let (admin, mut contract) = setup();
    let now = 0u64;

    // Register authority
    let authority = Address { id: 20 };
    assert!(contract.register_authority(admin, authority).is_ok());

    // Add claim
    let user = Address { id: 21 };
    let claim = claim_of(authority, now, now + 86400);
    assert!(contract.add_claim(authority, now, user, claim).is_ok());
}

#[test]
fn test_document_status_update() {
    let (_admin, mut contract) = setup();
    let creator = Address { id: 10 };
    let now = 0u64;

    // Create document
    let hash = hash32(0xAA);
    let title = "Test Document".to_string();
    let signers = vec![Address { id: 11 }];
    contract.create_document(creator, now, hash.clone(), title, signers, meta_none()).unwrap();

    // Update status
    assert!(contract.update_status(creator, now, hash.clone(), DocumentStatus::Revoked).is_ok());

    // Verify status
    let document = contract.verify_document(&hash).unwrap();
    assert_eq!(document.status, DocumentStatus::Revoked);
}

#[test]
fn test_configuration_management() {
    let (admin, mut contract) = setup();

    // Update config
    let config_key = "MAX_SIGN".to_string();
    let config_value = "5".to_string();
    assert!(contract.update_config(admin, config_key.clone(), config_value.clone()).is_ok());

    // Verify config
    let result = contract.get_config(&config_key).unwrap();
    assert_eq!(result, config_value);
}

#[test]
#[should_panic(expected = "Unauthorized")]
fn test_unauthorized_actions() {
    let (_admin, mut contract) = setup();

    // Try to register authority from non-admin account
    let unauthorized = Address { id: 30 };
    let authority = Address { id: 31 };
    contract.register_authority(unauthorized, authority).unwrap();
}

#[test]
fn test_multiple_signatures() {
    let (_admin, mut contract) = setup();
    let creator = Address { id: 10 };
    let now = 0u64;

    // Create document with multiple signers
    let hash = hash32(0xAA);
    let title = "Multi-Sig Document".to_string();
    let signers = vec![Address { id: 40 }, Address { id: 41 }, Address { id: 42 }];
    contract.create_document(creator, now, hash.clone(), title, signers.clone(), meta_none()).unwrap();

    // Add signatures
    for signer in &signers {
        let signature = sig_of(*signer, now);
        assert!(contract.sign_document(now, hash.clone(), signature).is_ok());
    }

    // Verify all signatures are present
    let document = contract.verify_document(&hash).unwrap();
    let current_version = &document.versions[document.current_version];
    assert_eq!(current_version.signatures.len(), signers.len());
    assert_eq!(document.status, DocumentStatus::Active);
}

#[test]
fn test_expired_claims() {
    let (admin, mut contract) = setup();
    let now = 1000u64;

    // Register authority
    let authority = Address { id: 20 };
    contract.register_authority(admin, authority).unwrap();

    // Add expired claim
    let user = Address { id: 21 };
    let claim = claim_of(authority, now, now - 1); // Expired
    assert!(contract.add_claim(authority, now, user, claim).is_err());
}

#[test]
fn test_user_documents() {
    let (_admin, mut contract) = setup();
    let now = 0u64;

    // Create multiple documents
    let user = Address { id: 50 };
    let doc1_hash = hash32(0xA1);
    let doc2_hash = hash32(0xA2);
    let title = "Test Document".to_string();
    let signers = vec![user];

    // Create documents
    contract.create_document(user, now, doc1_hash.clone(), title.clone(), signers.clone(), meta_none()).unwrap();
    contract.create_document(user, now, doc2_hash.clone(), title, signers, meta_none()).unwrap();

    // Get user documents
    let user_docs = contract.get_user_documents(user).unwrap();
    assert_eq!(user_docs.len(), 2);
    assert!(user_docs.contains(&doc1_hash));
    assert!(user_docs.contains(&doc2_hash));
}

#[test]
fn test_document_not_found() {
    let (_admin, contract) = setup();

    let hash = hash32(0xEE);
    assert!(contract.verify_document(&hash).is_err());
}

#[test]
fn test_invalid_authority() {
    let (_admin, mut contract) = setup();
    let now = 0u64;

    // Try to add claim without being registered authority
    let unauthorized = Address { id: 60 };
    let user = Address { id: 61 };
    let claim = claim_of(unauthorized, now, now + 86400);
    assert!(contract.add_claim(unauthorized, now, user, claim).is_err());
}

// ------------------------------------------------------------------
// Property scenarios on concrete values
// ------------------------------------------------------------------

#[test]
fn uniqueness_second_create_rejected_and_first_unchanged() {
    let (_admin, mut contract) = setup();
    let creator = Address { id: 10 };
    let other = Address { id: 12 };
    let hash = hash32(0xAA);
    contract
        .create_document(creator, 5, hash.clone(), "First".to_string(), vec![Address { id: 11 }], meta_none())
        .unwrap();
    let r = contract.create_document(
        other,
        99,
        hash.clone(),
        "Second".to_string(),
        vec![other],
        meta_none(),
    );
    assert_eq!(r, Err(NotaryError::AlreadyExists));
    let d = contract.verify_document(&hash).unwrap();
    assert_eq!(d.owner, creator);
    assert_eq!(d.created_at, 5);
    assert_eq!(d.versions.len(), 1);
    assert_eq!(d.versions[0].title, "First".to_string());
    assert_eq!(d.authorized_signers, vec![Address { id: 11 }]);
}

#[test]
fn quorum_exactness_two_of_three() {
    let (_admin, mut contract) = setup();
    let creator = Address { id: 10 };
    let a = Address { id: 40 };
    let b = Address { id: 41 };
    let c = Address { id: 42 };
    let hash = hash32(0xAA);
    contract
        .create_document(creator, 0, hash.clone(), "Quorum".to_string(), vec![a, b, c], meta_none())
        .unwrap();
    contract.sign_document(1, hash.clone(), sig_of(a, 1)).unwrap();
    contract.sign_document(2, hash.clone(), sig_of(b, 2)).unwrap();
    let d = contract.verify_document(&hash).unwrap();
    assert_eq!(d.status, DocumentStatus::Pending);
    assert_eq!(d.versions[0].status, VersionStatus::PendingApproval);
    assert_eq!(d.versions[0].signatures.len(), 2);
    contract.sign_document(3, hash.clone(), sig_of(c, 3)).unwrap();
    let d = contract.verify_document(&hash).unwrap();
    assert_eq!(d.status, DocumentStatus::Active);
    assert_eq!(d.versions[0].status, VersionStatus::Approved);
    assert_eq!(d.versions[0].signatures.len(), 3);
}

#[test]
fn no_double_signing_keeps_count() {
    let (_admin, mut contract) = setup();
    let creator = Address { id: 10 };
    let a = Address { id: 40 };
    let b = Address { id: 41 };
    let hash = hash32(0xAA);
    contract
        .create_document(creator, 0, hash.clone(), "Twice".to_string(), vec![a, b], meta_none())
        .unwrap();
    contract.sign_document(1, hash.clone(), sig_of(a, 1)).unwrap();
    let r = contract.sign_document(2, hash.clone(), sig_of(a, 2));
    assert_eq!(r, Err(NotaryError::AlreadyExists));
    let d = contract.verify_document(&hash).unwrap();
    assert_eq!(d.versions[0].signatures.len(), 1);
    assert_eq!(d.status, DocumentStatus::Pending);
}

#[test]
fn no_signatures_past_quorum() {
    let (_admin, mut contract) = setup();
    let creator = Address { id: 10 };
    let a = Address { id: 40 };
    let hash = hash32(0xD5);
    contract
        .create_document(creator, 0, hash.clone(), "Bounded".to_string(), vec![a], meta_none())
        .unwrap();
    contract.sign_document(1, hash.clone(), sig_of(a, 1)).unwrap();
    // Quorum reached; the signer set is exhausted and only unauthorized
    // or repeat signers remain, so the count stays at the threshold.
    let outsider = Address { id: 99 };
    assert_eq!(
        contract.sign_document(2, hash.clone(), sig_of(outsider, 2)),
        Err(NotaryError::Unauthorized)
    );
    assert_eq!(
        contract.sign_document(3, hash.clone(), sig_of(a, 3)),
        Err(NotaryError::AlreadyExists)
    );
    let d = contract.verify_document(&hash).unwrap();
    assert_eq!(d.versions[0].signatures.len(), 1);
    assert_eq!(d.versions[0].required_signers.len(), 1);
    assert_eq!(d.status, DocumentStatus::Active);
}

#[test]
fn claim_expiry_exact_boundary() {
    let (admin, mut contract) = setup();
    let now = 500u64;
    let authority = Address { id: 20 };
    let user = Address { id: 21 };
    contract.register_authority(admin, authority).unwrap();
    let at_now = claim_of(authority, now, now);
    let r = contract.add_claim(authority, now, user, at_now);
    assert_eq!(r, Err(NotaryError::ExpiredClaim));
    let just_later = claim_of(authority, now, now + 1);
    assert!(contract.add_claim(authority, now, user, just_later).is_ok());
}

#[test]
fn authority_gating_regardless_of_claim_validity() {
    let (_admin, mut contract) = setup();
    let now = 0u64;
    let stranger = Address { id: 70 };
    let user = Address { id: 71 };
    // A perfectly valid, far-future claim still fails for a stranger.
    let claim = claim_of(stranger, now, now + 1_000_000);
    let r = contract.add_claim(stranger, now, user, claim);
    assert_eq!(r, Err(NotaryError::InvalidAuthority));
    // An expired claim from a stranger fails with the same error: the
    // authority check comes first.
    let now = 10u64;
    let expired = claim_of(stranger, now, now);
    let r = contract.add_claim(stranger, now, user, expired);
    assert_eq!(r, Err(NotaryError::InvalidAuthority));
}

#[test]
fn idempotent_authority_registration() {
    let (admin, mut contract) = setup();
    let authority = Address { id: 20 };
    let events_before = contract.events.len();
    assert!(contract.register_authority(admin, authority).is_ok());
    assert!(contract.register_authority(admin, authority).is_ok());
    let state = contract.state.as_ref().unwrap();
    let entries = state.authorities.iter().filter(|x| **x == authority).count();
    assert_eq!(entries, 1);
    // Only the first registration emitted an event.
    assert_eq!(contract.events.len(), events_before + 1);
    assert!(matches!(
        &contract.events[events_before],
        NotaryEvent::AuthorityAdded(a) if *a == authority
    ));
}

#[test]
fn two_signer_scenario_with_added_version() {
    let (_admin, mut contract) = setup();
    let creator = Address { id: 10 };
    let a = Address { id: 40 };
    let b = Address { id: 41 };
    let hash = hash32(0xD0);
    contract
        .create_document(creator, 0, hash.clone(), "Scenario".to_string(), vec![a, b], meta_none())
        .unwrap();
    contract
        .add_version(creator, 1, hash.clone(), hash32(0xD1), "Second draft".to_string(), meta_none())
        .unwrap();
    contract.sign_document(2, hash.clone(), sig_of(a, 2)).unwrap();
    let d = contract.verify_document(&hash).unwrap();
    assert_eq!(d.status, DocumentStatus::Pending);
    assert_ne!(d.versions[d.current_version].status, VersionStatus::Approved);
    contract.sign_document(3, hash.clone(), sig_of(b, 3)).unwrap();
    let d = contract.verify_document(&hash).unwrap();
    assert_eq!(d.status, DocumentStatus::Active);
    assert_eq!(d.versions[d.current_version].status, VersionStatus::Approved);
    assert_eq!(d.versions[d.current_version].signatures.len(), 2);
}

// ------------------------------------------------------------------
// Error variants and edges
// ------------------------------------------------------------------

#[test]
fn errors_not_found() {
    let (_admin, mut contract) = setup();
    let missing = hash32(0xFF);
    let caller = Address { id: 10 };
    assert_eq!(
        contract.add_version(caller, 0, missing.clone(), hash32(0xFE), "T".to_string(), meta_none()),
        Err(NotaryError::NotFound)
    );
    assert_eq!(
        contract.sign_document(0, missing.clone(), sig_of(caller, 0)),
        Err(NotaryError::NotFound)
    );
    assert_eq!(
        contract.update_status(caller, 0, missing.clone(), DocumentStatus::Expired),
        Err(NotaryError::NotFound)
    );
    assert!(matches!(contract.verify_document(&missing), Err(NotaryError::NotFound)));
    assert!(matches!(contract.get_config(&"UNSET".to_string()), Err(NotaryError::NotFound)));
}

#[test]
fn errors_unauthorized() {
    let (_admin, mut contract) = setup();
    let creator = Address { id: 10 };
    let signer = Address { id: 11 };
    let stranger = Address { id: 99 };
    let hash = hash32(0xAB);
    contract
        .create_document(creator, 0, hash.clone(), "Guarded".to_string(), vec![signer], meta_none())
        .unwrap();
    assert_eq!(
        contract.add_version(stranger, 0, hash.clone(), hash32(0xAC), "T".to_string(), meta_none()),
        Err(NotaryError::Unauthorized)
    );
    assert_eq!(
        contract.sign_document(0, hash.clone(), sig_of(stranger, 0)),
        Err(NotaryError::Unauthorized)
    );
    // A mere authorized signer may not overwrite the status: owner only.
    assert_eq!(
        contract.update_status(signer, 0, hash.clone(), DocumentStatus::Expired),
        Err(NotaryError::Unauthorized)
    );
    assert_eq!(
        contract.update_config(stranger, "K".to_string(), "V".to_string()),
        Err(NotaryError::Unauthorized)
    );
    assert_eq!(
        contract.register_authority(stranger, stranger),
        Err(NotaryError::Unauthorized)
    );
}

#[test]
fn initialize_twice_exact_error() {
    let mut contract = NotaryContract::new();
    assert_eq!(contract.initialize(Address { id: 1 }), Ok(()));
    assert_eq!(contract.initialize(Address { id: 2 }), Err(NotaryError::AlreadyExists));
}

#[test]
fn authorized_signer_may_add_version() {
    let (_admin, mut contract) = setup();
    let creator = Address { id: 10 };
    let signer = Address { id: 11 };
    let hash = hash32(0xAD);
    contract
        .create_document(creator, 0, hash.clone(), "Amendable".to_string(), vec![signer], meta_none())
        .unwrap();
    assert_eq!(
        contract.add_version(signer, 7, hash.clone(), hash32(0xAE), "By signer".to_string(), meta_none()),
        Ok(())
    );
    let d = contract.verify_document(&hash).unwrap();
    assert_eq!(d.current_version, 1);
    assert_eq!(d.versions[1].creator, signer);
    assert_eq!(d.versions[1].status, VersionStatus::Draft);
    // The new version chains to the document's root hash, and its
    // required signers are a frozen snapshot of the signer set.
    assert_eq!(d.versions[1].parent_hash, hash);
    assert_eq!(d.versions[1].required_signers, vec![signer]);
}

#[test]
fn root_version_shape() {
    let (_admin, mut contract) = setup();
    let creator = Address { id: 10 };
    let hash = hash32(0xB0);
    contract
        .create_document(creator, 3, hash.clone(), "Root".to_string(), vec![creator], meta_none())
        .unwrap();
    let d = contract.verify_document(&hash).unwrap();
    assert_eq!(d.status, DocumentStatus::Pending);
    assert_eq!(d.current_version, 0);
    assert_eq!(d.versions[0].status, VersionStatus::PendingApproval);
    assert_eq!(d.versions[0].parent_hash, vec![0u8; 32]);
    assert_eq!(d.versions[0].signatures.len(), 0);
    assert_eq!(d.versions[0].hash, hash);
    assert_eq!(d.created_at, 3);
}

#[test]
fn get_user_documents_empty_default() {
    let (_admin, contract) = setup();
    let nobody = Address { id: 123 };
    let docs = contract.get_user_documents(nobody).unwrap();
    assert!(docs.is_empty());
}

#[test]
fn config_overwrite_keeps_single_entry() {
    let (admin, mut contract) = setup();
    contract.update_config(admin, "FEE_AMT".to_string(), "10".to_string()).unwrap();
    contract.update_config(admin, "FEE_AMT".to_string(), "25".to_string()).unwrap();
    assert_eq!(contract.get_config(&"FEE_AMT".to_string()).unwrap(), "25".to_string());
    let state = contract.state.as_ref().unwrap();
    assert_eq!(state.settings.len(), 1);
}

#[test]
fn events_are_recorded_in_order() {
    let (admin, mut contract) = setup();
    let creator = Address { id: 10 };
    let a = Address { id: 40 };
    let hash = hash32(0xC0);
    contract
        .create_document(creator, 0, hash.clone(), "Evented".to_string(), vec![a], meta_none())
        .unwrap();
    contract.sign_document(1, hash.clone(), sig_of(a, 1)).unwrap();
    contract.update_status(creator, 2, hash.clone(), DocumentStatus::Expired).unwrap();
    contract.register_authority(admin, a).unwrap();
    assert_eq!(contract.events.len(), 4);
    assert!(matches!(&contract.events[0], NotaryEvent::DocumentCreated(h) if *h == hash));
    assert!(matches!(&contract.events[1], NotaryEvent::DocumentSigned(h) if *h == hash));
    assert!(matches!(
        &contract.events[2],
        NotaryEvent::StatusChanged(h, s) if *h == hash && *s == DocumentStatus::Expired
    ));
    assert!(matches!(&contract.events[3], NotaryEvent::AuthorityAdded(x) if *x == a));
}

#[test]
fn signature_payload_is_stored_verbatim() {
    let (_admin, mut contract) = setup();
    let creator = Address { id: 10 };
    let a = Address { id: 40 };
    let b = Address { id: 41 };
    let hash = hash32(0xC1);
    contract
        .create_document(creator, 0, hash.clone(), "Payload".to_string(), vec![a, b], meta_none())
        .unwrap();
    let mut signature = sig_of(a, 5);
    signature.signature_data = vec![0x5Au8; 64];
    signature.claim_reference = vec![0x6Bu8; 32];
    contract.sign_document(5, hash.clone(), signature).unwrap();
    let d = contract.verify_document(&hash).unwrap();
    let s = &d.versions[0].signatures[0];
    assert_eq!(s.signer, a);
    assert_eq!(s.timestamp, 5);
    assert_eq!(s.signature_data, vec![0x5Au8; 64]);
    assert_eq!(s.claim_reference, vec![0x6Bu8; 32]);
}

#[test]
fn claims_accumulate_per_user() {
    let (admin, mut contract) = setup();
    let authority = Address { id: 20 };
    let user = Address { id: 21 };
    contract.register_authority(admin, authority).unwrap();
    contract.add_claim(authority, 0, user, claim_of(authority, 0, 100)).unwrap();
    contract.add_claim(authority, 0, user, claim_of(authority, 0, 200)).unwrap();
    let state = contract.state.as_ref().unwrap();
    assert_eq!(state.claims.len(), 1);
    assert_eq!(state.claims[0].user, user);
    assert_eq!(state.claims[0].claims.len(), 2);
    assert_eq!(state.claims[0].claims[0].expires_at, 100);
    assert_eq!(state.claims[0].claims[1].expires_at, 200);
}
