use land_registry::digest::generate_transaction_id;
use land_registry::storage::LandRegistry;
use land_registry::types::get_role_permissions;
use land_registry::types::{
    Coordinates, Permission, PrincipalId, RegistrationStatus, RegistryError, TransactionType,
    UserRole,
};

fn p(id: u64) -> PrincipalId {
    PrincipalId { id }
}

fn coords() -> Coordinates {
    Coordinates { latitude: 12_971_598, longitude: 77_594_566 }
}

/// A registry whose deployer (1) is admin and where (2) is a land registrar.
fn setup() -> LandRegistry {
    let mut reg = LandRegistry::new();
    reg.init(p(1));
    reg.assign_role(p(1), p(2), UserRole::LandRegistrar).unwrap();
    reg
}

#[test]
fn init_gives_deployer_admin_role() {
    let mut reg = LandRegistry::new();
    reg.init(p(1));
    assert_eq!(reg.get_owner(), p(1));
    assert_eq!(reg.get_user_roles(p(1)), vec![UserRole::Admin]);
    assert!(reg.has_role(&p(1), &UserRole::Admin));
    assert!(!reg.has_role(&p(1), &UserRole::LandRegistrar));
}

#[test]
fn register_requires_registrar_or_admin() {
    let mut reg = setup();
    // An unknown caller lacks both roles: refused, ledger unchanged.
    let r = reg.register_land_parcel(
        p(9),
        "Plot 1".to_string(),
        500,
        coords(),
        vec![],
        1_000,
    );
    assert_eq!(r, Err(RegistryError::Unauthorized));
    assert_eq!(reg.dip721_total_supply(), 0);
    // The registrar succeeds.
    let r = reg.register_land_parcel(
        p(2),
        "Plot 1".to_string(),
        500,
        coords(),
        vec![],
        1_000,
    );
    assert_eq!(r, Ok(1));
    assert_eq!(reg.dip721_total_supply(), 1);
    // The admin succeeds too.
    let r = reg.register_land_parcel(
        p(1),
        "Plot 2".to_string(),
        700,
        coords(),
        vec![],
        1_001,
    );
    assert_eq!(r, Ok(2));
}

#[test]
fn parcel_ids_strictly_increase() {
    let mut reg = setup();
    let mut last = 0u64;
    for k in 0..5 {
        let id = reg
            .register_land_parcel(
                p(2),
                format!("Plot {}", k),
                100 + k,
                coords(),
                vec![],
                2_000 + k,
            )
            .unwrap();
        assert!(id > last);
        last = id;
    }
}

#[test]
fn new_parcel_is_pending_with_one_registration_record() {
    let mut reg = setup();
    let id = reg
        .register_land_parcel(
            p(2),
            "Plot 1".to_string(),
            500,
            coords(),
            vec!["deed-hash".to_string()],
            1_000,
        )
        .unwrap();
    assert_eq!(id, 1);
    let (parcel, cert) = reg.get_land_parcel(1).unwrap();
    assert!(cert.is_empty());
    assert_eq!(parcel.token_id, 1);
    assert_eq!(parcel.owner, p(2));
    assert_eq!(parcel.status, RegistrationStatus::Pending);
    assert_eq!(parcel.metadata.location, "Plot 1");
    assert_eq!(parcel.metadata.size_sq_meters, 500);
    assert_eq!(parcel.metadata.document_hashes, vec!["deed-hash".to_string()]);
    assert_eq!(parcel.metadata.last_updated, 1_000);
    assert_eq!(parcel.history.len(), 1);
    let rec = &parcel.history[0];
    assert_eq!(rec.transaction_type, TransactionType::Registration);
    assert_eq!(rec.from_owner, None);
    assert_eq!(rec.to_owner, p(2));
    assert_eq!(rec.timestamp, 1_000);
    assert_eq!(rec.document_hash, Some("deed-hash".to_string()));
    assert_eq!(rec.notes, Some("Initial registration at Plot 1".to_string()));
    assert_eq!(rec.transaction_id, generate_transaction_id(1_000, p(2)));
    assert_eq!(rec.transaction_id.len(), 16);
}

#[test]
fn parcel_without_documents_has_no_initial_document_hash() {
    let mut reg = setup();
    reg.register_land_parcel(p(2), "Bare".to_string(), 10, coords(), vec![], 1_000)
        .unwrap();
    let (parcel, _) = reg.get_land_parcel(1).unwrap();
    assert!(parcel.metadata.document_hashes.is_empty());
    assert_eq!(parcel.history[0].document_hash, None);
    assert_eq!(parcel.metadata.legal_description, None);
    assert_eq!(parcel.metadata.zoning_type, None);
    assert_eq!(parcel.metadata.assessed_value, None);
}

#[test]
fn approve_registration_moves_pending_to_registered_once() {
    let mut reg = setup();
    reg.register_land_parcel(p(2), "Plot".to_string(), 500, coords(), vec![], 1_000)
        .unwrap();
    // A plain user may not approve.
    assert_eq!(reg.approve_registration(p(9), 1, 1_001), Err(RegistryError::Unauthorized));
    // A missing parcel is NotFound.
    assert_eq!(reg.approve_registration(p(2), 77, 1_001), Err(RegistryError::NotFound));
    // The registrar approves the pending parcel.
    assert_eq!(reg.approve_registration(p(2), 1, 1_001), Ok(()));
    let (parcel, _) = reg.get_land_parcel(1).unwrap();
    assert_eq!(parcel.status, RegistrationStatus::Registered);
    assert_eq!(parcel.history.len(), 2);
    let rec = &parcel.history[1];
    assert_eq!(rec.transaction_type, TransactionType::StatusUpdate);
    assert_eq!(rec.from_owner, Some(p(2)));
    assert_eq!(rec.to_owner, p(2));
    assert_eq!(rec.notes, Some("Registration approved".to_string()));
    // Approving again is InvalidState: the move is one-way.
    assert_eq!(reg.approve_registration(p(2), 1, 1_002), Err(RegistryError::InvalidState));
}

#[test]
fn transfer_checks_every_precondition() {
    let mut reg = setup();
    reg.register_land_parcel(p(2), "Plot".to_string(), 500, coords(), vec![], 1_000)
        .unwrap();
    // Pending parcels are frozen.
    assert_eq!(
        reg.dip721_transfer_from(p(2), p(2), p(4), 1, 1_001),
        Err(RegistryError::InvalidState)
    );
    reg.approve_registration(p(2), 1, 1_001).unwrap();
    // Missing parcel.
    assert_eq!(
        reg.dip721_transfer_from(p(2), p(2), p(4), 99, 1_002),
        Err(RegistryError::NotFound)
    );
    // `from` must be the current owner.
    assert_eq!(
        reg.dip721_transfer_from(p(2), p(9), p(4), 1, 1_002),
        Err(RegistryError::OwnershipMismatch)
    );
    // A stranger is neither owner nor delegate.
    assert_eq!(
        reg.dip721_transfer_from(p(9), p(2), p(4), 1, 1_002),
        Err(RegistryError::Unauthorized)
    );
    // The owner transfers.
    assert_eq!(reg.dip721_transfer_from(p(2), p(2), p(4), 1, 1_002), Ok(()));
    assert_eq!(reg.dip721_owner_of(1), Some(p(4)));
    let (parcel, _) = reg.get_land_parcel(1).unwrap();
    assert_eq!(parcel.history.len(), 3);
    assert_eq!(parcel.history[2].transaction_type, TransactionType::Transfer);
    assert_eq!(parcel.history[2].from_owner, Some(p(2)));
    assert_eq!(parcel.history[2].to_owner, p(4));
    assert_eq!(parcel.history[2].notes, Some("NFT Transfer".to_string()));
}

#[test]
fn delegated_transfer_scenario() {
    let mut reg = setup();
    reg.register_land_parcel(p(2), "Plot".to_string(), 500, coords(), vec![], 1_000)
        .unwrap();
    assert_eq!(reg.approve_registration(p(2), 1, 1_001), Ok(()));
    // The owner approves delegate 3.
    assert_eq!(reg.dip721_approve(p(2), p(3), 1), Ok(()));
    assert_eq!(reg.dip721_get_approved(1), Some(p(3)));
    // Delegate 3 transfers from owner 2 to buyer 4.
    assert_eq!(reg.dip721_transfer_from(p(3), p(2), p(4), 1, 1_002), Ok(()));
    assert_eq!(reg.dip721_owner_of(1), Some(p(4)));
    let (parcel, _) = reg.get_land_parcel(1).unwrap();
    assert_eq!(parcel.history.len(), 3);
    assert_eq!(parcel.history[2].transaction_type, TransactionType::Transfer);
    // The approval did not survive the transfer.
    assert_eq!(reg.dip721_get_approved(1), None);
    // A second attempt by the former delegate fails: no longer approved,
    // not the owner.
    assert_eq!(
        reg.dip721_transfer_from(p(3), p(4), p(5), 1, 1_003),
        Err(RegistryError::Unauthorized)
    );
}

#[test]
fn approve_requires_ownership_and_supersedes() {
    let mut reg = setup();
    reg.register_land_parcel(p(2), "Plot".to_string(), 500, coords(), vec![], 1_000)
        .unwrap();
    assert_eq!(reg.dip721_approve(p(2), p(3), 42), Err(RegistryError::NotFound));
    assert_eq!(reg.dip721_approve(p(9), p(3), 1), Err(RegistryError::Unauthorized));
    assert_eq!(reg.dip721_approve(p(2), p(3), 1), Ok(()));
    assert_eq!(reg.dip721_get_approved(1), Some(p(3)));
    // A later approval replaces the earlier one: one delegate per parcel.
    assert_eq!(reg.dip721_approve(p(2), p(7), 1), Ok(()));
    assert_eq!(reg.dip721_get_approved(1), Some(p(7)));
}

#[test]
fn assign_role_is_admin_only_and_set_like() {
    let mut reg = setup();
    assert_eq!(
        reg.assign_role(p(2), p(5), UserRole::Auditor),
        Err(RegistryError::Unauthorized)
    );
    assert_eq!(reg.assign_role(p(1), p(5), UserRole::Auditor), Ok(()));
    assert_eq!(reg.get_user_roles(p(5)), vec![UserRole::Auditor]);
    // Granting the same role again changes nothing.
    assert_eq!(reg.assign_role(p(1), p(5), UserRole::Auditor), Ok(()));
    assert_eq!(reg.get_user_roles(p(5)), vec![UserRole::Auditor]);
    // A second, different role is added.
    assert_eq!(reg.assign_role(p(1), p(5), UserRole::User), Ok(()));
    assert_eq!(reg.get_user_roles(p(5)), vec![UserRole::Auditor, UserRole::User]);
}

#[test]
fn queries_are_repeatable_and_do_not_mutate() {
    let mut reg = setup();
    reg.register_land_parcel(p(2), "Plot".to_string(), 500, coords(), vec![], 1_000)
        .unwrap();
    reg.dip721_approve(p(2), p(3), 1).unwrap();
    let a = reg.get_land_parcel(1);
    let b = reg.get_land_parcel(1);
    assert_eq!(a.is_some(), b.is_some());
    let (pa, _) = a.unwrap();
    let (pb, _) = b.unwrap();
    assert_eq!(pa.token_id, pb.token_id);
    assert_eq!(pa.history.len(), pb.history.len());
    assert_eq!(reg.get_user_roles(p(2)), reg.get_user_roles(p(2)));
    assert_eq!(reg.dip721_get_approved(1), reg.dip721_get_approved(1));
    assert_eq!(reg.dip721_total_supply(), 1);
}

#[test]
fn owner_queries_follow_insertion_order() {
    let mut reg = setup();
    reg.register_land_parcel(p(2), "A".to_string(), 1, coords(), vec![], 1_000).unwrap();
    reg.register_land_parcel(p(1), "B".to_string(), 2, coords(), vec![], 1_001).unwrap();
    reg.register_land_parcel(p(2), "C".to_string(), 3, coords(), vec![], 1_002).unwrap();
    let mine = reg.get_lands_by_owner(p(2));
    assert_eq!(mine.len(), 2);
    assert_eq!(mine[0].token_id, 1);
    assert_eq!(mine[1].token_id, 3);
    assert_eq!(reg.dip721_balance_of(p(2)), 2);
    assert_eq!(reg.dip721_balance_of(p(1)), 1);
    assert_eq!(reg.dip721_balance_of(p(9)), 0);
    let pairs = reg.get_parcels_by_owner(p(2));
    assert_eq!(pairs.len(), 2);
    assert_eq!(pairs[0].0.token_id, 1);
    assert!(pairs[0].1.is_empty());
    let history = reg.get_ownership_history(1).unwrap();
    assert_eq!(history.len(), 1);
    assert_eq!(reg.get_ownership_history(42), None);
}

#[test]
fn dip721_constants() {
    let reg = LandRegistry::new();
    assert_eq!(reg.dip721_name(), "Kshetra Land Registry");
    assert_eq!(reg.dip721_symbol(), "LAND");
    assert_eq!(
        reg.dip721_logo(),
        Some("https://kshetra-land-registry.com/logo.png".to_string())
    );
    assert_eq!(
        reg.dip721_supported_interfaces(),
        vec![
            "DIP721".to_string(),
            "LandRegistry".to_string(),
            "TransactionHistory".to_string()
        ]
    );
    assert_eq!(reg.dip721_owner_of(1), None);
    assert_eq!(reg.dip721_token_metadata(1), None);
}

#[test]
fn check_permission_goes_through_role_table() {
    let mut reg = setup();
    // The registrar may create parcels but not assign roles.
    assert_eq!(reg.check_permission(&p(2), &Permission::CreateLandParcel), Ok(()));
    assert_eq!(
        reg.check_permission(&p(2), &Permission::AssignRoles),
        Err(RegistryError::Unauthorized)
    );
    // The admin may assign roles but not manage the canister.
    assert_eq!(reg.check_permission(&p(1), &Permission::AssignRoles), Ok(()));
    assert_eq!(
        reg.check_permission(&p(1), &Permission::ManageCanister),
        Err(RegistryError::Unauthorized)
    );
    // An unknown identity holds no permissions at all.
    assert_eq!(
        reg.check_permission(&p(9), &Permission::ViewLandParcel),
        Err(RegistryError::Unauthorized)
    );
    reg.assign_role(p(1), p(6), UserRole::Owner).unwrap();
    assert_eq!(reg.check_permission(&p(6), &Permission::ManageCanister), Ok(()));
}

#[test]
fn authenticate_user_builds_a_day_long_session() {
    let mut reg = setup();
    reg.assign_role(p(1), p(5), UserRole::User).unwrap();
    let session = reg.authenticate_user(&p(5), 1_000).unwrap();
    assert_eq!(session.principal, p(5));
    assert_eq!(session.created_at, 1_000);
    assert_eq!(session.expires_at, 1_000 + 24 * 60 * 60_000_000);
    assert_eq!(session.roles, vec![UserRole::User]);
}

#[test]
fn certified_user_roles_none_when_empty() {
    let mut reg = LandRegistry::new();
    reg.init(p(1));
    assert_eq!(reg.get_certified_user_roles(p(9)), None);
    let (roles, cert) = reg.get_certified_user_roles(p(1)).unwrap();
    assert_eq!(roles, vec![UserRole::Admin]);
    assert!(cert.is_empty());
}

#[test]
fn insert_user_roles_replaces_the_whole_set() {
    let mut reg = LandRegistry::new();
    reg.insert_user_roles(p(5), vec![UserRole::Auditor, UserRole::User]);
    assert_eq!(reg.get_user_roles(p(5)), vec![UserRole::Auditor, UserRole::User]);
    reg.insert_user_roles(p(5), vec![UserRole::Admin]);
    assert_eq!(reg.get_user_roles(p(5)), vec![UserRole::Admin]);
    assert_eq!(reg.get_user_roles(p(6)), vec![]);
}

#[test]
fn set_owner_is_visible() {
    let mut reg = LandRegistry::new();
    assert_eq!(reg.get_owner(), PrincipalId { id: 0 });
    reg.set_owner(p(7));
    assert_eq!(reg.get_owner(), p(7));
    reg.init_certified_data();
}

#[test]
fn transaction_ids_depend_on_time_and_caller() {
    let a = generate_transaction_id(1_000, p(2));
    let b = generate_transaction_id(1_000, p(2));
    let c = generate_transaction_id(1_001, p(2));
    let d = generate_transaction_id(1_000, p(3));
    assert_eq!(a, b);
    assert_ne!(a, c);
    assert_ne!(a, d);
    assert_eq!(a.len(), 16);
    assert!(a.chars().all(|ch| ch.is_ascii_hexdigit() && !ch.is_ascii_uppercase()));
}

#[test]
fn role_permission_table_matches_the_design() {
    let owner = get_role_permissions(&UserRole::Owner);
    assert_eq!(owner.len(), 12);
    assert!(owner.contains(&Permission::ManageCanister));
    let admin = get_role_permissions(&UserRole::Admin);
    assert_eq!(admin.len(), 10);
    assert!(!admin.contains(&Permission::ManageCanister));
    assert!(!admin.contains(&Permission::SystemAdmin));
    let registrar = get_role_permissions(&UserRole::LandRegistrar);
    assert_eq!(
        registrar,
        vec![
            Permission::CreateLandParcel,
            Permission::ApproveLandParcel,
            Permission::ViewLandParcel,
            Permission::UpdateLandParcel
        ]
    );
    let auditor = get_role_permissions(&UserRole::Auditor);
    assert_eq!(
        auditor,
        vec![Permission::ViewLandParcel, Permission::ViewUsers, Permission::ViewAuditLogs]
    );
    let user = get_role_permissions(&UserRole::User);
    assert_eq!(user, vec![Permission::ViewLandParcel, Permission::TransferLandParcel]);
}
