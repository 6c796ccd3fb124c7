use land_registry::document_storage::{
    DocumentAccessControl, DocumentAccessLevel, DocumentHash, DocumentMetadata,
    DocumentQueryFilter, DocumentRegistrationRequest, DocumentType, DocumentValidationError,
    StorageBackend, VerificationStatus,
};
use land_registry::storage::LandRegistry;
use land_registry::types::{PrincipalId, UserRole};

use sha2::Digest;

fn p(id: u64) -> PrincipalId {
    PrincipalId { id }
}

fn sample_doc(ipfs_cid: Option<String>) -> DocumentHash {
    DocumentHash {
        hash: "abc123".to_string(),
        storage_backend: StorageBackend::IPFS,
        metadata: DocumentMetadata {
            document_id: "doc-1".to_string(),
            document_type: DocumentType::LandDeed,
            title: "Deed".to_string(),
            description: None,
            file_name: "deed.pdf".to_string(),
            file_size: 1024,
            mime_type: "application/pdf".to_string(),
            created_at: 1_000,
            uploaded_by: p(2),
            last_verified: None,
            verification_status: VerificationStatus::Pending,
            tags: vec![],
        },
        land_parcel_ids: vec![1, 3],
        ipfs_cid,
        icp_storage_key: None,
        checksum: String::new(),
        encryption_key_id: None,
    }
}

#[test]
fn checksum_is_the_hex_sha256_of_the_content() {
    let content = b"land deed scan";
    let expected = hex::encode(sha2::Sha256::digest(content));
    assert_eq!(DocumentHash::generate_checksum(content), expected);
    assert_eq!(DocumentHash::generate_checksum(b"").len(), 64);
    assert_ne!(
        DocumentHash::generate_checksum(b"a"),
        DocumentHash::generate_checksum(b"b")
    );
}

#[test]
fn document_id_is_the_truncated_digest_of_hash_time_and_uploader() {
    let id = DocumentHash::generate_document_id("content-hash", 1_000, &p(2));
    assert_eq!(id.len(), 16);
    let mut hasher = sha2::Sha256::new();
    hasher.update("content-hash".as_bytes());
    hasher.update(1_000u64.to_be_bytes());
    hasher.update(2u64.to_be_bytes());
    let expected = hex::encode(hasher.finalize())[..16].to_string();
    assert_eq!(id, expected);
    // Any ingredient changes the identifier.
    assert_ne!(id, DocumentHash::generate_document_id("content-hash", 1_001, &p(2)));
    assert_ne!(id, DocumentHash::generate_document_id("content-hash", 1_000, &p(3)));
    assert_ne!(id, DocumentHash::generate_document_id("other", 1_000, &p(2)));
}

#[test]
fn ipfs_url_joins_gateway_and_cid() {
    let with_cid = sample_doc(Some("QmXyz".to_string()));
    assert_eq!(
        with_cid.get_ipfs_url("https://ipfs.io"),
        Some("https://ipfs.io/ipfs/QmXyz".to_string())
    );
    let without = sample_doc(None);
    assert_eq!(without.get_ipfs_url("https://ipfs.io"), None);
}

#[test]
fn parcel_associations_add_once_and_remove_in_order() {
    let mut doc = sample_doc(None);
    assert!(doc.is_associated_with_parcel(1));
    assert!(!doc.is_associated_with_parcel(2));
    doc.add_parcel_association(2);
    assert_eq!(doc.land_parcel_ids, vec![1, 3, 2]);
    // Adding an existing association changes nothing.
    doc.add_parcel_association(3);
    assert_eq!(doc.land_parcel_ids, vec![1, 3, 2]);
    doc.remove_parcel_association(3);
    assert_eq!(doc.land_parcel_ids, vec![1, 2]);
    doc.remove_parcel_association(42);
    assert_eq!(doc.land_parcel_ids, vec![1, 2]);
}

fn acl(level: DocumentAccessLevel) -> DocumentAccessControl {
    DocumentAccessControl {
        document_hash: "abc123".to_string(),
        access_level: level,
        authorized_principals: vec![p(2)],
        authorized_roles: vec![UserRole::Auditor],
        expires_at: None,
    }
}

#[test]
fn access_rules_per_level() {
    let public = acl(DocumentAccessLevel::Public);
    assert!(public.has_access(&p(99), &[]));

    let restricted = acl(DocumentAccessLevel::Restricted);
    assert!(restricted.has_access(&p(2), &[]));
    assert!(restricted.has_access(&p(9), &[UserRole::Auditor]));
    assert!(!restricted.has_access(&p(9), &[UserRole::User]));
    assert!(!restricted.has_access(&p(9), &[]));

    let owner_only = acl(DocumentAccessLevel::Owner);
    assert!(owner_only.has_access(&p(2), &[UserRole::Admin]));
    assert!(!owner_only.has_access(&p(9), &[UserRole::Admin]));

    let admin_only = acl(DocumentAccessLevel::Administrative);
    assert!(admin_only.has_access(&p(9), &[UserRole::Admin]));
    assert!(admin_only.has_access(&p(9), &[UserRole::LandRegistrar]));
    assert!(admin_only.has_access(&p(9), &[UserRole::Owner]));
    assert!(!admin_only.has_access(&p(9), &[UserRole::User, UserRole::Auditor]));
}

#[test]
fn expiry_only_with_a_deadline() {
    let mut rule = acl(DocumentAccessLevel::Public);
    assert!(!rule.is_expired(u64::MAX));
    rule.expires_at = Some(1_000);
    assert!(!rule.is_expired(1_000));
    assert!(rule.is_expired(1_001));
}

#[test]
fn document_endpoints_delegate_to_the_external_collaborator() {
    let request = DocumentRegistrationRequest {
        document_type: DocumentType::Other("misc".to_string()),
        title: "T".to_string(),
        description: None,
        file_name: "f".to_string(),
        file_size: 1,
        mime_type: "text/plain".to_string(),
        storage_backend: StorageBackend::ICPStableStorage,
        land_parcel_ids: vec![],
        ipfs_cid: None,
        file_content: None,
        tags: vec![],
    };
    assert_eq!(
        LandRegistry::register_document(request),
        Err(DocumentValidationError::InvalidMetadata)
    );
    assert!(LandRegistry::fetch_document_by_id("doc-1").is_none());
    let filter = DocumentQueryFilter {
        document_type: None,
        land_parcel_id: None,
        uploaded_by: None,
        verification_status: None,
        created_after: None,
        created_before: None,
        tags: vec![],
    };
    assert!(LandRegistry::query_documents(filter).is_empty());
}

#[test]
fn validation_errors_render_their_messages() {
    assert_eq!(DocumentValidationError::InvalidFileType.message(), "Invalid file type");
    assert_eq!(
        DocumentValidationError::FileSizeExceeded.message(),
        "File size exceeded limit"
    );
    assert_eq!(DocumentValidationError::InvalidHash.message(), "Invalid document hash");
    assert_eq!(
        DocumentValidationError::MissingIPFSCID.message(),
        "Missing IPFS CID for IPFS storage"
    );
    assert_eq!(
        DocumentValidationError::InvalidLandParcelId.message(),
        "Invalid land parcel ID"
    );
    assert_eq!(
        DocumentValidationError::UnauthorizedUploader.message(),
        "Unauthorized uploader"
    );
    assert_eq!(
        DocumentValidationError::DuplicateDocument.message(),
        "Document already exists"
    );
    assert_eq!(
        DocumentValidationError::InvalidMetadata.message(),
        "Invalid document metadata"
    );
}
