//! Document references attached to parcels: metadata, access control, and
//! identifier/checksum derivation.
//!
//! The registry stores document references verbatim; interpreting them
//! (existence, integrity, storage) is delegated to an external document
//! collaborator.

use vstd::prelude::*;
use vstd::string::StringExecFns;
use vstd::string::StringSliceAdditionalSpecFns;

use crate::digest::{hex_of, sha256_of, u64_be_bytes, u64_to_be_bytes};
use crate::types::{PrincipalId, UserRole};

verus! {

/// Where a document's content lives.
#[derive(Clone, Copy, Debug, PartialEq, Eq, Structural)]
pub enum StorageBackend {
    IPFS,
    ICPStableStorage,
}

/// Document categories supported by the land registry.
#[derive(Clone, Debug, PartialEq, Eq)]
pub enum DocumentType {
    LandDeed,
    SurveyReport,
    TitleCertificate,
    TaxAssessment,
    ZoningPermit,
    EnvironmentalReport,
    OwnershipHistory,
    LegalDocument,
    Photo,
    Other(String),
}

/// Verification state of a document.
#[derive(Clone, Copy, Debug, PartialEq, Eq, Structural)]
pub enum VerificationStatus {
    Pending,
    Verified,
    Rejected,
    Expired,
}

/// Descriptive attributes of a stored document.
#[derive(Clone, Debug)]
pub struct DocumentMetadata {
    pub document_id: String,
    pub document_type: DocumentType,
    pub title: String,
    pub description: Option<String>,
    pub file_name: String,
    pub file_size: u64,
    pub mime_type: String,
    pub created_at: u64,
    pub uploaded_by: PrincipalId,
    pub last_verified: Option<u64>,
    pub verification_status: VerificationStatus,
    pub tags: Vec<String>,
}

/// A document hash entry and everything the registry knows about it.
#[derive(Clone, Debug)]
pub struct DocumentHash {
    pub hash: String,
    pub storage_backend: StorageBackend,
    pub metadata: DocumentMetadata,
    pub land_parcel_ids: Vec<u64>,
    pub ipfs_cid: Option<String>,
    pub icp_storage_key: Option<String>,
    pub checksum: String,
    pub encryption_key_id: Option<String>,
}

/// A request to register a new document.
#[derive(Clone, Debug)]
pub struct DocumentRegistrationRequest {
    pub document_type: DocumentType,
    pub title: String,
    pub description: Option<String>,
    pub file_name: String,
    pub file_size: u64,
    pub mime_type: String,
    pub storage_backend: StorageBackend,
    pub land_parcel_ids: Vec<u64>,
    pub ipfs_cid: Option<String>,
    pub file_content: Option<Vec<u8>>,
    pub tags: Vec<String>,
}

/// Filters for a document query.
#[derive(Clone, Debug)]
pub struct DocumentQueryFilter {
    pub document_type: Option<DocumentType>,
    pub land_parcel_id: Option<u64>,
    pub uploaded_by: Option<PrincipalId>,
    pub verification_status: Option<VerificationStatus>,
    pub created_after: Option<u64>,
    pub created_before: Option<u64>,
    pub tags: Vec<String>,
}

/// A document handed back to a caller.
#[derive(Clone, Debug)]
pub struct DocumentRetrievalResponse {
    pub document_hash: DocumentHash,
    pub content_url: Option<String>,
    pub access_token: Option<String>,
    pub expiry: Option<u64>,
}

/// Gateway configuration for IPFS-backed documents.
#[derive(Clone, Debug)]
pub struct IPFSConfig {
    pub gateway_url: String,
    pub api_endpoint: String,
    pub pin_service_url: Option<String>,
    pub pin_service_token: Option<String>,
}

/// Limits for stable-storage-backed documents.
#[derive(Clone, Debug)]
pub struct ICPStorageConfig {
    pub max_file_size: u64,
    pub allowed_mime_types: Vec<String>,
    pub encryption_enabled: bool,
    pub compression_enabled: bool,
}

/// Aggregate counters over the document store.
#[derive(Clone, Copy, Debug, PartialEq, Eq, Structural)]
pub struct DocumentStorageStats {
    pub total_documents: u64,
    pub ipfs_documents: u64,
    pub icp_storage_documents: u64,
    pub total_storage_bytes: u64,
    pub verified_documents: u64,
    pub pending_documents: u64,
}

/// Who may retrieve a document.
#[derive(Clone, Copy, Debug, PartialEq, Eq, Structural)]
pub enum DocumentAccessLevel {
    Public,
    Restricted,
    Owner,
    Administrative,
}

/// The access rule attached to one document.
#[derive(Clone, Debug)]
pub struct DocumentAccessControl {
    pub document_hash: String,
    pub access_level: DocumentAccessLevel,
    pub authorized_principals: Vec<PrincipalId>,
    pub authorized_roles: Vec<UserRole>,
    pub expires_at: Option<u64>,
}

/// Why a document registration was refused.
#[derive(Clone, Copy, Debug, PartialEq, Eq, Structural)]
pub enum DocumentValidationError {
    InvalidFileType,
    FileSizeExceeded,
    InvalidHash,
    MissingIPFSCID,
    InvalidLandParcelId,
    UnauthorizedUploader,
    DuplicateDocument,
    InvalidMetadata,
}

impl DocumentValidationError {
    /// The human-readable text of each error.
    pub open spec fn spec_message(self) -> Seq<char> {
        match self {
            DocumentValidationError::InvalidFileType => "Invalid file type"@,
            DocumentValidationError::FileSizeExceeded => "File size exceeded limit"@,
            DocumentValidationError::InvalidHash => "Invalid document hash"@,
            DocumentValidationError::MissingIPFSCID => "Missing IPFS CID for IPFS storage"@,
            DocumentValidationError::InvalidLandParcelId => "Invalid land parcel ID"@,
            DocumentValidationError::UnauthorizedUploader => "Unauthorized uploader"@,
            DocumentValidationError::DuplicateDocument => "Document already exists"@,
            DocumentValidationError::InvalidMetadata => "Invalid document metadata"@,
        }
    }

    /// Renders the error for a caller.
    pub fn message(&self) -> (m: &'static str)
        ensures
            m@ == self.spec_message(),
    {
        match self {
            DocumentValidationError::InvalidFileType => "Invalid file type",
            DocumentValidationError::FileSizeExceeded => "File size exceeded limit",
            DocumentValidationError::InvalidHash => "Invalid document hash",
            DocumentValidationError::MissingIPFSCID => "Missing IPFS CID for IPFS storage",
            DocumentValidationError::InvalidLandParcelId => "Invalid land parcel ID",
            DocumentValidationError::UnauthorizedUploader => "Unauthorized uploader",
            DocumentValidationError::DuplicateDocument => "Document already exists",
            DocumentValidationError::InvalidMetadata => "Invalid document metadata",
        }
    }
}

/// Whether a vector of parcel identifiers holds `x`.
pub fn ids_contain(v: &Vec<u64>, x: u64) -> (r: bool)
    ensures
        r == v@.contains(x),
{
    let n = v.len();
    for i in 0..n
        invariant
            n == v.len(),
            forall|k: int| 0 <= k < i ==> v@[k] != x,
    {
        if v[i] == x {
            return true;
        }
    }
    false
}

/// Whether a vector of principals holds `x`.
pub fn principals_contain(v: &Vec<PrincipalId>, x: PrincipalId) -> (r: bool)
    ensures
        r == v@.contains(x),
{
    let n = v.len();
    for i in 0..n
        invariant
            n == v.len(),
            forall|k: int| 0 <= k < i ==> v@[k] != x,
    {
        if v[i].id == x.id {
            return true;
        }
    }
    false
}

/// Whether a slice of roles holds `x`.
pub fn roles_include(v: &[UserRole], x: UserRole) -> (r: bool)
    ensures
        r == v@.contains(x),
{
    let n = v.len();
    for i in 0..n
        invariant
            n == v@.len(),
            forall|k: int| 0 <= k < i ==> v@[k] != x,
    {
        if v[i] == x {
            return true;
        }
    }
    false
}

/// The document identifier derived from a content hash, a timestamp and the
/// uploader: the hex rendering of the first eight digest bytes.
pub open spec fn spec_document_id(content: Seq<u8>, timestamp: u64, uploader: PrincipalId) -> Seq<
    char,
> {
    hex_of(sha256_of(content + u64_be_bytes(timestamp) + u64_be_bytes(uploader.id)).take(8))
}

/// The integrity checksum of a document's content: its full hex-rendered
/// SHA-256 digest.
pub open spec fn spec_checksum(content: Seq<u8>) -> Seq<char> {
    hex_of(sha256_of(content))
}

impl DocumentHash {
    /// Derives a unique document identifier from content hash, timestamp and
    /// uploader.
    pub fn generate_document_id(content_hash: &str, timestamp: u64, uploader: &PrincipalId) -> (r:
        String)
        ensures
            r@ == spec_document_id(content_hash.spec_bytes(), timestamp, *uploader),
            r@.len() == 16,
    {
        let mut buf: Vec<u8> = Vec::new();
        buf.extend_from_slice(content_hash.as_bytes());
        let mut ts = u64_to_be_bytes(timestamp);
        buf.append(&mut ts);
        let mut who = u64_to_be_bytes(uploader.id);
        buf.append(&mut who);
        proof {
            assert(buf@ =~= content_hash.spec_bytes() + u64_be_bytes(timestamp) + u64_be_bytes(
                uploader.id,
            ));
        }
        let mut digest = crate::digest::sha256_digest(&buf);
        digest.truncate(8);
        proof {
            assert(digest@ =~= sha256_of(buf@).take(8));
        }
        crate::digest::hex_encode_bytes(&digest)
    }

    /// Derives the content checksum used for integrity verification.
    pub fn generate_checksum(content: &[u8]) -> (r: String)
        ensures
            r@ == spec_checksum(content@),
            r@.len() == 64,
    {
        let mut owned: Vec<u8> = Vec::new();
        let n = content.len();
        for i in 0..n
            invariant
                n == content@.len(),
                owned@ =~= content@.take(i as int),
        {
            owned.push(content[i]);
        }
        proof {
            assert(owned@ =~= content@);
        }
        let digest = crate::digest::sha256_digest(&owned);
        crate::digest::hex_encode_bytes(&digest)
    }

    /// The gateway URL of an IPFS-backed document, if it has a content
    /// identifier.
    pub fn get_ipfs_url(&self, gateway_url: &str) -> (r: Option<String>)
        ensures
            match self.ipfs_cid {
                Some(cid) => r matches Some(u) && u@ == gateway_url@ + "/ipfs/"@ + cid@,
                None => r is None,
            },
    {
        match &self.ipfs_cid {
            Some(cid) => Some(
                String::from_str(gateway_url).concat("/ipfs/").concat(cid.as_str()),
            ),
            None => None,
        }
    }

    /// Whether this document is attached to the given parcel.
    pub fn is_associated_with_parcel(&self, parcel_id: u64) -> (r: bool)
        ensures
            r == self.land_parcel_ids@.contains(parcel_id),
    {
        ids_contain(&self.land_parcel_ids, parcel_id)
    }

    /// Attaches this document to a parcel; attaching it twice changes
    /// nothing.
    pub fn add_parcel_association(&mut self, parcel_id: u64)
        ensures
            *final(self) == (DocumentHash {
                land_parcel_ids: final(self).land_parcel_ids,
                ..*old(self)
            }),
            final(self).land_parcel_ids@ == if old(self).land_parcel_ids@.contains(parcel_id) {
                old(self).land_parcel_ids@
            } else {
                old(self).land_parcel_ids@.push(parcel_id)
            },
    {
        if !ids_contain(&self.land_parcel_ids, parcel_id) {
            self.land_parcel_ids.push(parcel_id);
        }
    }

    /// Detaches this document from a parcel, keeping the order of the
    /// remaining associations.
    pub fn remove_parcel_association(&mut self, parcel_id: u64)
        ensures
            *final(self) == (DocumentHash {
                land_parcel_ids: final(self).land_parcel_ids,
                ..*old(self)
            }),
            final(self).land_parcel_ids@ == old(self).land_parcel_ids@.filter(
                |id: u64| id != parcel_id,
            ),
    {
        let n = self.land_parcel_ids.len();
        let mut kept: Vec<u64> = Vec::new();
        for i in 0..n
            invariant
                n == self.land_parcel_ids.len(),
                kept@ =~= self.land_parcel_ids@.take(i as int).filter(|id: u64| id != parcel_id),
        {
            proof {
                crate::seq_lemmas::lemma_filter_take_step(
                    self.land_parcel_ids@,
                    |id: u64| id != parcel_id,
                    i as int,
                );
            }
            let id = self.land_parcel_ids[i];
            if id != parcel_id {
                kept.push(id);
            }
        }
        proof {
            assert(self.land_parcel_ids@.take(n as int) =~= self.land_parcel_ids@);
        }
        self.land_parcel_ids = kept;
    }
}

impl DocumentAccessControl {
    /// Whether `p`, holding `roles`, may retrieve the document.
    pub open spec fn spec_has_access(self, p: PrincipalId, roles: Seq<UserRole>) -> bool {
        match self.access_level {
            DocumentAccessLevel::Public => true,
            DocumentAccessLevel::Restricted => self.authorized_principals@.contains(p) || exists|
                i: int,
            |
                0 <= i < roles.len() && self.authorized_roles@.contains(#[trigger] roles[i]),
            DocumentAccessLevel::Owner => self.authorized_principals@.contains(p),
            DocumentAccessLevel::Administrative => roles.contains(UserRole::Admin)
                || roles.contains(UserRole::LandRegistrar) || roles.contains(UserRole::Owner),
        }
    }

    /// Checks whether a principal with the given roles has access to the
    /// document.
    pub fn has_access(&self, principal: &PrincipalId, user_roles: &[UserRole]) -> (r: bool)
        ensures
            r == self.spec_has_access(*principal, user_roles@),
    {
        match self.access_level {
            DocumentAccessLevel::Public => true,
            DocumentAccessLevel::Restricted => {
                if principals_contain(&self.authorized_principals, *principal) {
                    true
                } else {
                    let n = user_roles.len();
                    for i in 0..n
                        invariant
                            n == user_roles@.len(),
                            self.access_level == DocumentAccessLevel::Restricted,
                            forall|k: int|
                                0 <= k < i ==> !self.authorized_roles@.contains(
                                    #[trigger] user_roles@[k],
                                ),
                    {
                        if roles_include(self.authorized_roles.as_slice(), user_roles[i]) {
                            proof {
                                assert(exists|k: int|
                                    0 <= k < user_roles@.len() && self.authorized_roles@.contains(
                                        #[trigger] user_roles@[k],
                                    ));
                            }
                            return true;
                        }
                    }
                    false
                }
            },
            DocumentAccessLevel::Owner => principals_contain(
                &self.authorized_principals,
                *principal,
            ),
            DocumentAccessLevel::Administrative => {
                roles_include(user_roles, UserRole::Admin) || roles_include(
                    user_roles,
                    UserRole::LandRegistrar,
                ) || roles_include(user_roles, UserRole::Owner)
            },
        }
    }

    /// Whether the access rule has expired at time `now`; a rule without an
    /// expiry never expires.
    pub fn is_expired(&self, now: u64) -> (r: bool)
        ensures
            r == match self.expires_at {
                Some(e) => now > e,
                None => false,
            },
    {
        match self.expires_at {
            Some(expires_at) => now > expires_at,
            None => false,
        }
    }
}

} // verus!
