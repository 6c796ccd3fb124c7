//! Core data types of the registry: identities, roles, permissions, parcels,
//! and the per-parcel transaction history, together with their mathematical
//! models (views) used by the contracts.

use vstd::prelude::*;

verus! {

/// A caller identity, as handed to the registry by the hosting environment.
///
/// The host's identities are opaque byte strings; the registry only ever
/// compares them for equality, so it models an identity as a plain integer
/// handle chosen by the embedding.
#[derive(Clone, Copy, Debug, PartialEq, Eq, Structural, Hash)]
pub struct PrincipalId {
    pub id: u64,
}

impl PrincipalId {
    /// The distinguished anonymous identity.
    pub fn anonymous() -> (r: PrincipalId)
        ensures
            r.id == 0,
    {
        PrincipalId { id: 0 }
    }
}

/// Roles an identity may hold; a single identity may hold several at once.
#[derive(Clone, Copy, Debug, PartialEq, Eq, Structural)]
pub enum UserRole {
    Owner,
    Admin,
    LandRegistrar,
    Auditor,
    User,
}

/// An atomic capability checked before a mutating operation proceeds.
#[derive(Clone, Copy, Debug, PartialEq, Eq, Structural)]
pub enum Permission {
    CreateLandParcel,
    ApproveLandParcel,
    TransferLandParcel,
    ViewLandParcel,
    UpdateLandParcel,
    RevokeLandParcel,
    ManageUsers,
    AssignRoles,
    ViewUsers,
    SystemAdmin,
    ViewAuditLogs,
    ManageCanister,
}

/// Why a registry operation was refused; every mutating operation reports
/// its failure through one of these and leaves the state unchanged.
#[derive(Clone, Copy, Debug, PartialEq, Eq, Structural)]
pub enum RegistryError {
    /// The caller lacks the required role, or is neither owner nor delegate.
    Unauthorized,
    /// The referenced parcel does not exist.
    NotFound,
    /// The parcel's lifecycle status forbids the operation.
    InvalidState,
    /// The supplied previous owner is not the parcel's current owner.
    OwnershipMismatch,
}

/// Lifecycle status of a parcel: `Pending` on creation, `Registered` after
/// approval, `Revoked` reserved as a terminal state.
#[derive(Clone, Copy, Debug, PartialEq, Eq, Structural)]
pub enum RegistrationStatus {
    Pending,
    Registered,
    Revoked,
}

/// The kind of event a transaction record documents.
#[derive(Clone, Copy, Debug, PartialEq, Eq, Structural)]
pub enum TransactionType {
    Registration,
    Transfer,
    StatusUpdate,
}

/// Geographic position of a parcel, in fixed-point microdegrees.
#[derive(Clone, Copy, Debug, PartialEq, Eq, Structural)]
pub struct Coordinates {
    pub latitude: i64,
    pub longitude: i64,
}

/// One immutable entry of a parcel's append-only history.
#[derive(Debug, PartialEq, Eq)]
pub struct TransactionRecord {
    pub transaction_id: String,
    pub from_owner: Option<PrincipalId>,
    pub to_owner: PrincipalId,
    pub timestamp: u64,
    pub transaction_type: TransactionType,
    pub document_hash: Option<String>,
    pub notes: Option<String>,
}

/// Mathematical model of a [`TransactionRecord`].
pub ghost struct RecordModel {
    pub transaction_id: Seq<char>,
    pub from_owner: Option<PrincipalId>,
    pub to_owner: PrincipalId,
    pub timestamp: u64,
    pub transaction_type: TransactionType,
    pub document_hash: Option<Seq<char>>,
    pub notes: Option<Seq<char>>,
}

impl View for TransactionRecord {
    type V = RecordModel;

    open spec fn view(&self) -> RecordModel {
        RecordModel {
            transaction_id: self.transaction_id@,
            from_owner: self.from_owner,
            to_owner: self.to_owner,
            timestamp: self.timestamp,
            transaction_type: self.transaction_type,
            document_hash: self.document_hash.deep_view(),
            notes: self.notes.deep_view(),
        }
    }
}

impl DeepView for TransactionRecord {
    type V = RecordModel;

    open spec fn deep_view(&self) -> RecordModel {
        self.view()
    }
}

/// Descriptive attributes of a parcel.
#[derive(Debug, PartialEq, Eq)]
pub struct LandParcelMetadata {
    pub location: String,
    pub size_sq_meters: u64,
    pub coordinates: Coordinates,
    pub document_hashes: Vec<String>,
    pub legal_description: Option<String>,
    pub zoning_type: Option<String>,
    pub assessed_value: Option<u64>,
    pub last_updated: u64,
}

/// Mathematical model of [`LandParcelMetadata`].
pub ghost struct MetadataModel {
    pub location: Seq<char>,
    pub size_sq_meters: u64,
    pub coordinates: Coordinates,
    pub document_hashes: Seq<Seq<char>>,
    pub legal_description: Option<Seq<char>>,
    pub zoning_type: Option<Seq<char>>,
    pub assessed_value: Option<u64>,
    pub last_updated: u64,
}

impl View for LandParcelMetadata {
    type V = MetadataModel;

    open spec fn view(&self) -> MetadataModel {
        MetadataModel {
            location: self.location@,
            size_sq_meters: self.size_sq_meters,
            coordinates: self.coordinates,
            document_hashes: self.document_hashes.deep_view(),
            legal_description: self.legal_description.deep_view(),
            zoning_type: self.zoning_type.deep_view(),
            assessed_value: self.assessed_value,
            last_updated: self.last_updated,
        }
    }
}

impl DeepView for LandParcelMetadata {
    type V = MetadataModel;

    open spec fn deep_view(&self) -> MetadataModel {
        self.view()
    }
}

/// The registry's record of one land parcel.
#[derive(Debug, PartialEq, Eq)]
pub struct LandParcel {
    pub token_id: u64,
    pub owner: PrincipalId,
    pub metadata: LandParcelMetadata,
    pub status: RegistrationStatus,
    pub history: Vec<TransactionRecord>,
}

/// Mathematical model of a [`LandParcel`].
pub ghost struct ParcelModel {
    pub token_id: u64,
    pub owner: PrincipalId,
    pub metadata: MetadataModel,
    pub status: RegistrationStatus,
    pub history: Seq<RecordModel>,
}

impl View for LandParcel {
    type V = ParcelModel;

    open spec fn view(&self) -> ParcelModel {
        ParcelModel {
            token_id: self.token_id,
            owner: self.owner,
            metadata: self.metadata@,
            status: self.status,
            history: self.history.deep_view(),
        }
    }
}

impl DeepView for LandParcel {
    type V = ParcelModel;

    open spec fn deep_view(&self) -> ParcelModel {
        self.view()
    }
}

/// Identity attributes kept by the authentication layer.
#[derive(Debug)]
pub struct AuthenticationInfo {
    pub principal: PrincipalId,
    pub internet_identity_anchor: Option<u64>,
    pub roles: Vec<UserRole>,
    pub created_at: u64,
    pub last_login: u64,
    pub login_count: u64,
    pub is_active: bool,
}

/// A short-lived session handed out after authentication.
#[derive(Debug)]
pub struct AuthSession {
    pub principal: PrincipalId,
    pub expires_at: u64,
    pub created_at: u64,
    pub roles: Vec<UserRole>,
}

/// Clones an optional string; the copy reads the same.
pub fn clone_opt_string(o: &Option<String>) -> (r: Option<String>)
    ensures
        r.deep_view() == o.deep_view(),
{
    match o {
        Some(s) => Some(s.clone()),
        None => None,
    }
}

/// Clones a vector of strings element by element; the copy reads the same.
pub fn clone_vec_string(v: &Vec<String>) -> (r: Vec<String>)
    ensures
        r.deep_view() == v.deep_view(),
{
    let mut r: Vec<String> = Vec::new();
    let n = v.len();
    for i in 0..n
        invariant
            n == v.len(),
            r@.len() == i,
            forall|j: int| 0 <= j < i ==> r@[j]@ == v@[j]@,
    {
        r.push(v[i].clone());
    }
    proof {
        assert(r.deep_view() =~= v.deep_view());
    }
    r
}

/// Clones a vector of roles element by element.
pub fn clone_roles(v: &Vec<UserRole>) -> (r: Vec<UserRole>)
    ensures
        r@ == v@,
{
    let mut r: Vec<UserRole> = Vec::new();
    let n = v.len();
    for i in 0..n
        invariant
            n == v.len(),
            r@ =~= v@.take(i as int),
    {
        r.push(v[i]);
    }
    proof {
        assert(r@ =~= v@);
    }
    r
}

impl Clone for TransactionRecord {
    /// The copy models the same record.
    fn clone(&self) -> (res: Self)
        ensures
            res@ == self@,
    {
        TransactionRecord {
            transaction_id: self.transaction_id.clone(),
            from_owner: self.from_owner,
            to_owner: self.to_owner,
            timestamp: self.timestamp,
            transaction_type: self.transaction_type,
            document_hash: clone_opt_string(&self.document_hash),
            notes: clone_opt_string(&self.notes),
        }
    }
}

impl Clone for LandParcelMetadata {
    /// The copy models the same metadata.
    fn clone(&self) -> (res: Self)
        ensures
            res@ == self@,
    {
        LandParcelMetadata {
            location: self.location.clone(),
            size_sq_meters: self.size_sq_meters,
            coordinates: self.coordinates,
            document_hashes: clone_vec_string(&self.document_hashes),
            legal_description: clone_opt_string(&self.legal_description),
            zoning_type: clone_opt_string(&self.zoning_type),
            assessed_value: self.assessed_value,
            last_updated: self.last_updated,
        }
    }
}

/// Clones a parcel history element by element; the copy models the same history.
pub fn clone_history(v: &Vec<TransactionRecord>) -> (r: Vec<TransactionRecord>)
    ensures
        r.deep_view() == v.deep_view(),
{
    let mut r: Vec<TransactionRecord> = Vec::new();
    let n = v.len();
    for i in 0..n
        invariant
            n == v.len(),
            r@.len() == i,
            forall|j: int| 0 <= j < i ==> r@[j]@ == v@[j]@,
    {
        r.push(v[i].clone());
    }
    proof {
        assert(r.deep_view() =~= v.deep_view());
    }
    r
}

impl Clone for LandParcel {
    /// The copy models the same parcel.
    fn clone(&self) -> (res: Self)
        ensures
            res@ == self@,
    {
        LandParcel {
            token_id: self.token_id,
            owner: self.owner,
            metadata: self.metadata.clone(),
            status: self.status,
            history: clone_history(&self.history),
        }
    }
}

impl Clone for AuthSession {
    /// The copy carries the same session data.
    fn clone(&self) -> (res: Self)
        ensures
            res.principal == self.principal,
            res.expires_at == self.expires_at,
            res.created_at == self.created_at,
            res.roles@ == self.roles@,
    {
        AuthSession {
            principal: self.principal,
            expires_at: self.expires_at,
            created_at: self.created_at,
            roles: clone_roles(&self.roles),
        }
    }
}

/// The fixed permission set of each role.
pub open spec fn spec_role_permissions(role: UserRole) -> Seq<Permission> {
    match role {
        UserRole::Owner => seq![
            Permission::CreateLandParcel,
            Permission::ApproveLandParcel,
            Permission::TransferLandParcel,
            Permission::ViewLandParcel,
            Permission::UpdateLandParcel,
            Permission::RevokeLandParcel,
            Permission::ManageUsers,
            Permission::AssignRoles,
            Permission::ViewUsers,
            Permission::SystemAdmin,
            Permission::ViewAuditLogs,
            Permission::ManageCanister,
        ],
        UserRole::Admin => seq![
            Permission::CreateLandParcel,
            Permission::ApproveLandParcel,
            Permission::TransferLandParcel,
            Permission::ViewLandParcel,
            Permission::UpdateLandParcel,
            Permission::RevokeLandParcel,
            Permission::ManageUsers,
            Permission::AssignRoles,
            Permission::ViewUsers,
            Permission::ViewAuditLogs,
        ],
        UserRole::LandRegistrar => seq![
            Permission::CreateLandParcel,
            Permission::ApproveLandParcel,
            Permission::ViewLandParcel,
            Permission::UpdateLandParcel,
        ],
        UserRole::Auditor => seq![
            Permission::ViewLandParcel,
            Permission::ViewUsers,
            Permission::ViewAuditLogs,
        ],
        UserRole::User => seq![Permission::ViewLandParcel, Permission::TransferLandParcel],
    }
}

/// Role-to-permission lookup: each role maps to a fixed, statically known
/// set of permissions.
pub fn get_role_permissions(role: &UserRole) -> (r: Vec<Permission>)
    ensures
        r@ == spec_role_permissions(*role),
{
    match role {
        UserRole::Owner => {
            let v = vec![
                Permission::CreateLandParcel,
                Permission::ApproveLandParcel,
                Permission::TransferLandParcel,
                Permission::ViewLandParcel,
                Permission::UpdateLandParcel,
                Permission::RevokeLandParcel,
                Permission::ManageUsers,
                Permission::AssignRoles,
                Permission::ViewUsers,
                Permission::SystemAdmin,
                Permission::ViewAuditLogs,
                Permission::ManageCanister,
            ];
            proof {
                assert(v@ =~= spec_role_permissions(UserRole::Owner));
            }
            v
        },
        UserRole::Admin => {
            let v = vec![
                Permission::CreateLandParcel,
                Permission::ApproveLandParcel,
                Permission::TransferLandParcel,
                Permission::ViewLandParcel,
                Permission::UpdateLandParcel,
                Permission::RevokeLandParcel,
                Permission::ManageUsers,
                Permission::AssignRoles,
                Permission::ViewUsers,
                Permission::ViewAuditLogs,
            ];
            proof {
                assert(v@ =~= spec_role_permissions(UserRole::Admin));
            }
            v
        },
        UserRole::LandRegistrar => {
            let v = vec![
                Permission::CreateLandParcel,
                Permission::ApproveLandParcel,
                Permission::ViewLandParcel,
                Permission::UpdateLandParcel,
            ];
            proof {
                assert(v@ =~= spec_role_permissions(UserRole::LandRegistrar));
            }
            v
        },
        UserRole::Auditor => {
            let v = vec![
                Permission::ViewLandParcel,
                Permission::ViewUsers,
                Permission::ViewAuditLogs,
            ];
            proof {
                assert(v@ =~= spec_role_permissions(UserRole::Auditor));
            }
            v
        },
        UserRole::User => {
            let v = vec![Permission::ViewLandParcel, Permission::TransferLandParcel];
            proof {
                assert(v@ =~= spec_role_permissions(UserRole::User));
            }
            v
        },
    }
}

} // verus!
