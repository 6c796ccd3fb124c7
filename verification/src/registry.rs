//! The registry service's operations: parcel creation, registration
//! approval, ownership transfer with delegated approvals, role management,
//! and the read-only queries.

use vstd::prelude::*;
use vstd::string::StringExecFns;

use crate::digest::{generate_transaction_id, spec_transaction_id};
use crate::storage::{
    lemma_approvals_frame, lemma_approvals_remove, lemma_roles_frame, LandRegistry,
    LandRegistryState,
};
use crate::types::{
    clone_history, spec_role_permissions, AuthSession, Coordinates, LandParcel,
    LandParcelMetadata, ParcelModel, Permission, PrincipalId, RecordModel, RegistrationStatus,
    RegistryError, TransactionRecord, TransactionType, UserRole,
};

verus! {

/// The ledger entry written when a parcel is created.
pub open spec fn is_registration_record(
    rec: RecordModel,
    caller: PrincipalId,
    now: u64,
    docs: Seq<Seq<char>>,
    location: Seq<char>,
) -> bool {
    &&& rec.transaction_id == spec_transaction_id(now, caller)
    &&& rec.from_owner is None
    &&& rec.to_owner == caller
    &&& rec.timestamp == now
    &&& rec.transaction_type == TransactionType::Registration
    &&& rec.document_hash == if docs.len() > 0 {
        Some(docs[0])
    } else {
        None::<Seq<char>>
    }
    &&& rec.notes == Some("Initial registration at "@ + location)
}

/// The parcel produced by a successful creation.
pub open spec fn is_new_parcel(
    p: ParcelModel,
    token_id: u64,
    caller: PrincipalId,
    location: Seq<char>,
    size_sq_meters: u64,
    coordinates: Coordinates,
    docs: Seq<Seq<char>>,
    now: u64,
) -> bool {
    &&& p.token_id == token_id
    &&& p.owner == caller
    &&& p.status == RegistrationStatus::Pending
    &&& p.metadata.location == location
    &&& p.metadata.size_sq_meters == size_sq_meters
    &&& p.metadata.coordinates == coordinates
    &&& p.metadata.document_hashes == docs
    &&& p.metadata.legal_description is None
    &&& p.metadata.zoning_type is None
    &&& p.metadata.assessed_value is None
    &&& p.metadata.last_updated == now
    &&& p.history.len() == 1
    &&& is_registration_record(p.history[0], caller, now, docs, location)
}

/// The ledger entry written when a pending parcel is approved.
pub open spec fn is_status_update_record(
    rec: RecordModel,
    owner: PrincipalId,
    caller: PrincipalId,
    now: u64,
) -> bool {
    &&& rec.transaction_id == spec_transaction_id(now, caller)
    &&& rec.from_owner == Some(owner)
    &&& rec.to_owner == owner
    &&& rec.timestamp == now
    &&& rec.transaction_type == TransactionType::StatusUpdate
    &&& rec.document_hash is None
    &&& rec.notes == Some("Registration approved"@)
}

/// The ledger entry written when a parcel changes hands.
pub open spec fn is_transfer_record(
    rec: RecordModel,
    from: PrincipalId,
    to: PrincipalId,
    caller: PrincipalId,
    now: u64,
) -> bool {
    &&& rec.transaction_id == spec_transaction_id(now, caller)
    &&& rec.from_owner == Some(from)
    &&& rec.to_owner == to
    &&& rec.timestamp == now
    &&& rec.transaction_type == TransactionType::Transfer
    &&& rec.document_hash is None
    &&& rec.notes == Some("NFT Transfer"@)
}

/// The only lifecycle movement a single operation may make: staying put, or
/// the one-way step from `Pending` to `Registered`.
pub open spec fn status_step_ok(pre: RegistrationStatus, post: RegistrationStatus) -> bool {
    pre == post || (pre == RegistrationStatus::Pending && post == RegistrationStatus::Registered)
}

/// Whether some role of `p` carries the permission.
pub open spec fn spec_has_permission(
    s: LandRegistryState,
    p: PrincipalId,
    perm: Permission,
) -> bool {
    exists|i: int|
        0 <= i < s.roles_of(p).len() && spec_role_permissions(#[trigger] s.roles_of(p)[i]).contains(
            perm,
        )
}

/// Replacing one parcel by another with the same identifier leaves every
/// lookup in place: existence, positions, and all other parcels.
pub proof fn lemma_parcel_update_frame(
    pre: LandRegistryState,
    post: LandRegistryState,
    i: int,
)
    requires
        pre.parcels_wf(),
        post.parcels_wf(),
        0 <= i < pre.parcels().len(),
        post.parcels() == pre.parcels().update(i, post.parcels()[i]),
        post.parcels()[i].token_id == pre.parcels()[i].token_id,
    ensures
        forall|id: u64| post.has_parcel(id) == pre.has_parcel(id),
        forall|id: u64|
            #[trigger] pre.has_parcel(id) ==> post.parcel_index(id) == pre.parcel_index(id),
        forall|id: u64|
            #[trigger] pre.has_parcel(id) && id != pre.parcels()[i].token_id ==> post.parcel(id)
                == pre.parcel(id),
        post.parcel(pre.parcels()[i].token_id) == post.parcels()[i],
{
    assert forall|id: u64| post.has_parcel(id) == pre.has_parcel(id) by {
        if pre.has_parcel(id) {
            let k = pre.parcel_index(id);
            assert(0 <= k < pre.parcels().len() && pre.parcels()[k].token_id == id);
            assert(post.parcels()[k].token_id == id);
            assert(post.has_parcel(id));
        }
        if post.has_parcel(id) {
            let k = post.parcel_index(id);
            assert(0 <= k < post.parcels().len() && post.parcels()[k].token_id == id);
            assert(pre.parcels()[k].token_id == id);
            assert(pre.has_parcel(id));
        }
    }
    assert forall|id: u64| #[trigger] pre.has_parcel(id) implies post.parcel_index(id)
        == pre.parcel_index(id) by {
        let k = pre.parcel_index(id);
        assert(0 <= k < pre.parcels().len() && pre.parcels()[k].token_id == id);
        assert(post.parcels()[k].token_id == id);
        post.lemma_parcel_index_is(k);
    }
    assert(pre.parcels()[i].token_id == post.parcels()[i].token_id);
    pre.lemma_parcel_index_is(i);
    post.lemma_parcel_index_is(i);
}

/// Appending a parcel leaves every existing parcel and its lookup in place.
pub proof fn lemma_parcel_append_frame(pre: LandRegistryState, post: LandRegistryState)
    requires
        pre.parcels_wf(),
        post.parcels_wf(),
        post.parcels().len() == pre.parcels().len() + 1,
        forall|k: int|
            0 <= k < pre.parcels().len() ==> #[trigger] post.parcels()[k] == pre.parcels()[k],
    ensures
        forall|id: u64|
            #[trigger] pre.has_parcel(id) ==> post.has_parcel(id) && post.parcel_index(id)
                == pre.parcel_index(id) && post.parcel(id) == pre.parcel(id),
{
    assert forall|id: u64| #[trigger] pre.has_parcel(id) implies post.has_parcel(id)
        && post.parcel_index(id) == pre.parcel_index(id) && post.parcel(id) == pre.parcel(
        id,
    ) by {
        let k = pre.parcel_index(id);
        assert(0 <= k < pre.parcels().len() && pre.parcels()[k].token_id == id);
        assert(post.parcels()[k].token_id == id);
        post.lemma_parcel_index_is(k);
    }
}

impl LandRegistry {
    /// Creates a parcel owned by the caller, in the `Pending` state, with a
    /// one-entry history; only a land registrar or an administrator may
    /// create parcels, and anyone else is refused with the ledger untouched.
    pub fn register_land_parcel(
        &mut self,
        caller: PrincipalId,
        location: String,
        size_sq_meters: u64,
        coordinates: Coordinates,
        document_hashes: Vec<String>,
        now: u64,
    ) -> (r: Result<u64, RegistryError>)
        requires
            old(self).state.wf(),
            old(self).state.next_token_id < u64::MAX,
        ensures
            final(self).state.wf(),
            if old(self).state.is_registrar_or_admin(caller) {
                &&& r == Ok::<u64, RegistryError>(old(self).state.next_token_id)
                &&& final(self).state.next_token_id == old(self).state.next_token_id + 1
                &&& final(self).state.parcels().len() == old(self).state.parcels().len() + 1
                &&& forall|k: int|
                    0 <= k < old(self).state.parcels().len()
                        ==> #[trigger] final(self).state.parcels()[k]
                        == old(self).state.parcels()[k]
                &&& is_new_parcel(
                    final(self).state.parcels().last(),
                    old(self).state.next_token_id,
                    caller,
                    location@,
                    size_sq_meters,
                    coordinates,
                    document_hashes.deep_view(),
                    now,
                )
                &&& final(self).state == (LandRegistryState {
                    next_token_id: final(self).state.next_token_id,
                    land_parcels: final(self).state.land_parcels,
                    ..old(self).state
                })
            } else {
                r == Err::<u64, RegistryError>(RegistryError::Unauthorized) && *final(self)
                    == *old(self)
            },
            forall|id: u64|
                #[trigger] old(self).state.has_parcel(id) ==> final(self).state.has_parcel(id)
                    && status_step_ok(
                    old(self).state.parcel(id).status,
                    final(self).state.parcel(id).status,
                ),
    {
        if !self.has_role(&caller, &UserRole::LandRegistrar) && !self.has_role(
            &caller,
            &UserRole::Admin,
        ) {
            return Err(RegistryError::Unauthorized);
        }
        let ghost pre = self.state;
        let token_id = self.state.next_token_id;
        self.state.next_token_id = token_id + 1;
        let document_hash = if document_hashes.len() > 0 {
            Some(document_hashes[0].clone())
        } else {
            None
        };
        let notes = String::from_str("Initial registration at ").concat(location.as_str());
        let record = TransactionRecord {
            transaction_id: generate_transaction_id(now, caller),
            from_owner: None,
            to_owner: caller,
            timestamp: now,
            transaction_type: TransactionType::Registration,
            document_hash,
            notes: Some(notes),
        };
        let mut history: Vec<TransactionRecord> = Vec::new();
        history.push(record);
        let parcel = LandParcel {
            token_id,
            owner: caller,
            metadata: LandParcelMetadata {
                location,
                size_sq_meters,
                coordinates,
                document_hashes,
                legal_description: None,
                zoning_type: None,
                assessed_value: None,
                last_updated: now,
            },
            status: RegistrationStatus::Pending,
            history,
        };
        self.state.land_parcels.push(parcel);
        proof {
            assert(forall|k: int|
                0 <= k < pre.parcels().len() ==> #[trigger] self.state.parcels()[k]
                    == pre.parcels()[k]);
            assert(self.state.wf());
            lemma_parcel_append_frame(pre, self.state);
        }
        Ok(token_id)
    }
}

impl LandRegistry {
    /// Moves a pending parcel to `Registered` and appends a status-update
    /// entry to its history; only a land registrar or an administrator may
    /// approve, a missing parcel is `NotFound`, and a parcel that is not
    /// pending is refused with `InvalidState`.
    pub fn approve_registration(&mut self, caller: PrincipalId, token_id: u64, now: u64) -> (r:
        Result<(), RegistryError>)
        requires
            old(self).state.wf(),
        ensures
            final(self).state.wf(),
            ({
                let s = old(self).state;
                let t = final(self).state;
                if !s.is_registrar_or_admin(caller) {
                    r == Err::<(), RegistryError>(RegistryError::Unauthorized) && t == s
                } else if !s.has_parcel(token_id) {
                    r == Err::<(), RegistryError>(RegistryError::NotFound) && t == s
                } else if s.parcel(token_id).status != RegistrationStatus::Pending {
                    r == Err::<(), RegistryError>(RegistryError::InvalidState) && t == s
                } else {
                    &&& r == Ok::<(), RegistryError>(())
                    &&& t.has_parcel(token_id)
                    &&& ({
                        let p0 = s.parcel(token_id);
                        let p1 = t.parcel(token_id);
                        &&& p1.token_id == p0.token_id
                        &&& p1.owner == p0.owner
                        &&& p1.metadata == p0.metadata
                        &&& p1.status == RegistrationStatus::Registered
                        &&& p1.history == p0.history.push(p1.history.last())
                        &&& is_status_update_record(p1.history.last(), p0.owner, caller, now)
                    })
                    &&& forall|id: u64|
                        #[trigger] s.has_parcel(id) && id != token_id ==> t.parcel(id) == s.parcel(
                            id,
                        )
                    &&& forall|id: u64| s.has_parcel(id) == t.has_parcel(id)
                    &&& t == (LandRegistryState { land_parcels: t.land_parcels, ..s })
                }
            }),
            forall|id: u64|
                #[trigger] old(self).state.has_parcel(id) ==> final(self).state.has_parcel(id)
                    && status_step_ok(
                    old(self).state.parcel(id).status,
                    final(self).state.parcel(id).status,
                ),
    {
        if !self.has_role(&caller, &UserRole::LandRegistrar) && !self.has_role(
            &caller,
            &UserRole::Admin,
        ) {
            return Err(RegistryError::Unauthorized);
        }
        match self.state.find_parcel(token_id) {
            None => Err(RegistryError::NotFound),
            Some(i) => {
                proof {
                    self.state.lemma_parcel_index_is(i as int);
                }
                if self.state.land_parcels[i].status != RegistrationStatus::Pending {
                    return Err(RegistryError::InvalidState);
                }
                let ghost pre = self.state;
                let owner = self.state.land_parcels[i].owner;
                let record = TransactionRecord {
                    transaction_id: generate_transaction_id(now, caller),
                    from_owner: Some(owner),
                    to_owner: owner,
                    timestamp: now,
                    transaction_type: TransactionType::StatusUpdate,
                    document_hash: None,
                    notes: Some(String::from_str("Registration approved")),
                };
                let ghost record_model = record@;
                let parcel = &mut self.state.land_parcels[i];
                parcel.status = RegistrationStatus::Registered;
                parcel.history.push(record);
                proof {
                    let t = self.state;
                    assert(t.parcels() =~= pre.parcels().update(i as int, t.parcels()[i as int]));
                    assert(t.parcels()[i as int].history =~= pre.parcels()[i as int].history.push(
                        record_model,
                    ));
                    assert(t.wf());
                    lemma_parcel_update_frame(pre, t, i as int);
                }
                Ok(())
            },
        }
    }

    /// Sets `approved` as the sole delegate for a parcel, superseding any
    /// earlier approval; only the parcel's current owner may approve, and a
    /// missing parcel is `NotFound`.
    pub fn dip721_approve(&mut self, caller: PrincipalId, approved: PrincipalId, token_id: u64)
        -> (r: Result<(), RegistryError>)
        requires
            old(self).state.wf(),
        ensures
            final(self).state.wf(),
            ({
                let s = old(self).state;
                let t = final(self).state;
                if !s.has_parcel(token_id) {
                    r == Err::<(), RegistryError>(RegistryError::NotFound) && t == s
                } else if s.parcel(token_id).owner != caller {
                    r == Err::<(), RegistryError>(RegistryError::Unauthorized) && t == s
                } else {
                    &&& r == Ok::<(), RegistryError>(())
                    &&& t.approved_of(token_id) == Some(approved)
                    &&& forall|id: u64| id != token_id ==> t.approved_of(id) == s.approved_of(id)
                    &&& t == (LandRegistryState { token_approvals: t.token_approvals, ..s })
                }
            }),
    {
        match self.state.find_parcel(token_id) {
            None => Err(RegistryError::NotFound),
            Some(i) => {
                proof {
                    self.state.lemma_parcel_index_is(i as int);
                }
                if self.state.land_parcels[i].owner.id != caller.id {
                    return Err(RegistryError::Unauthorized);
                }
                let ghost pre = self.state;
                match self.state.find_approval(token_id) {
                    Some(j) => {
                        self.state.token_approvals[j].1 = approved;
                        proof {
                            assert(forall|k: int|
                                0 <= k < self.state.token_approvals@.len() && k != j ==> (
                                #[trigger] self.state.token_approvals@[k])
                                    == pre.token_approvals@[k]);
                            assert(self.state.approvals_unique());
                            self.state.lemma_approval_index_is(j as int);
                            lemma_approvals_frame(pre, self.state, token_id);
                        }
                    },
                    None => {
                        self.state.token_approvals.push((token_id, approved));
                        proof {
                            assert(forall|k: int|
                                0 <= k < pre.token_approvals@.len() ==> (
                                #[trigger] self.state.token_approvals@[k])
                                    == pre.token_approvals@[k]);
                            assert(self.state.approvals_unique());
                            self.state.lemma_approval_index_is(
                                pre.token_approvals@.len() as int,
                            );
                            lemma_approvals_frame(pre, self.state, token_id);
                        }
                    },
                }
                Ok(())
            },
        }
    }

    /// Transfers a parcel: succeeds exactly when the parcel exists, `from`
    /// is its current owner, the caller is `from` or the approved delegate,
    /// and the parcel is `Registered`. On success the owner becomes `to`, a
    /// transfer entry is appended to the history, and the parcel's approval
    /// is cleared; on failure nothing changes.
    pub fn dip721_transfer_from(
        &mut self,
        caller: PrincipalId,
        from: PrincipalId,
        to: PrincipalId,
        token_id: u64,
        now: u64,
    ) -> (r: Result<(), RegistryError>)
        requires
            old(self).state.wf(),
        ensures
            final(self).state.wf(),
            ({
                let s = old(self).state;
                let t = final(self).state;
                if !s.has_parcel(token_id) {
                    r == Err::<(), RegistryError>(RegistryError::NotFound) && t == s
                } else if s.parcel(token_id).owner != from {
                    r == Err::<(), RegistryError>(RegistryError::OwnershipMismatch) && t == s
                } else if caller != from && s.approved_of(token_id) != Some(caller) {
                    r == Err::<(), RegistryError>(RegistryError::Unauthorized) && t == s
                } else if s.parcel(token_id).status != RegistrationStatus::Registered {
                    r == Err::<(), RegistryError>(RegistryError::InvalidState) && t == s
                } else {
                    &&& r == Ok::<(), RegistryError>(())
                    &&& t.has_parcel(token_id)
                    &&& ({
                        let p0 = s.parcel(token_id);
                        let p1 = t.parcel(token_id);
                        &&& p1.token_id == p0.token_id
                        &&& p1.owner == to
                        &&& p1.status == p0.status
                        &&& p1.metadata == p0.metadata
                        &&& p1.history == p0.history.push(p1.history.last())
                        &&& is_transfer_record(p1.history.last(), from, to, caller, now)
                    })
                    &&& forall|id: u64|
                        #[trigger] s.has_parcel(id) && id != token_id ==> t.parcel(id) == s.parcel(
                            id,
                        )
                    &&& forall|id: u64| s.has_parcel(id) == t.has_parcel(id)
                    &&& t.approved_of(token_id) is None
                    &&& forall|id: u64| id != token_id ==> t.approved_of(id) == s.approved_of(id)
                    &&& t.next_token_id == s.next_token_id
                    &&& t.owner == s.owner
                    &&& t.user_roles == s.user_roles
                }
            }),
            forall|id: u64|
                #[trigger] old(self).state.has_parcel(id) ==> final(self).state.has_parcel(id)
                    && status_step_ok(
                    old(self).state.parcel(id).status,
                    final(self).state.parcel(id).status,
                ),
    {
        match self.state.find_parcel(token_id) {
            None => Err(RegistryError::NotFound),
            Some(i) => {
                proof {
                    self.state.lemma_parcel_index_is(i as int);
                }
                if self.state.land_parcels[i].owner.id != from.id {
                    return Err(RegistryError::OwnershipMismatch);
                }
                let is_approved = match self.dip721_get_approved(token_id) {
                    Some(approved) => approved.id == caller.id,
                    None => false,
                };
                if caller.id != from.id && !is_approved {
                    return Err(RegistryError::Unauthorized);
                }
                if self.state.land_parcels[i].status != RegistrationStatus::Registered {
                    return Err(RegistryError::InvalidState);
                }
                let ghost pre = self.state;
                let record = TransactionRecord {
                    transaction_id: generate_transaction_id(now, caller),
                    from_owner: Some(from),
                    to_owner: to,
                    timestamp: now,
                    transaction_type: TransactionType::Transfer,
                    document_hash: None,
                    notes: Some(String::from_str("NFT Transfer")),
                };
                let ghost record_model = record@;
                let parcel = &mut self.state.land_parcels[i];
                parcel.owner = to;
                parcel.history.push(record);
                proof {
                    let t1 = self.state;
                    assert(t1.parcels() =~= pre.parcels().update(i as int, t1.parcels()[i as int]));
                    assert(t1.parcels()[i as int].history =~= pre.parcels()[
                        i as int
                    ].history.push(record_model));
                    assert(t1.wf());
                    lemma_parcel_update_frame(pre, t1, i as int);
                    crate::storage::lemma_approvals_same_store(pre, t1);
                }
                let ghost mid = self.state;
                match self.state.find_approval(token_id) {
                    Some(j) => {
                        self.state.token_approvals.remove(j);
                        proof {
                            lemma_approvals_remove(mid, self.state, token_id, j as int);
                            crate::storage::lemma_parcels_same_store(mid, self.state);
                        }
                    },
                    None => {
                    },
                }
                Ok(())
            },
        }
    }

    /// The delegate currently approved for a parcel, if any.
    pub fn dip721_get_approved(&self, token_id: u64) -> (r: Option<PrincipalId>)
        requires
            self.state.wf(),
        ensures
            r == self.state.approved_of(token_id),
    {
        match self.state.find_approval(token_id) {
            Some(j) => {
                proof {
                    self.state.lemma_approval_index_is(j as int);
                }
                Some(self.state.token_approvals[j].1)
            },
            None => None,
        }
    }

    /// The registry's display name.
    pub fn dip721_name(&self) -> (r: String)
        ensures
            r@ == "Kshetra Land Registry"@,
    {
        String::from_str("Kshetra Land Registry")
    }

    /// The registry's token symbol.
    pub fn dip721_symbol(&self) -> (r: String)
        ensures
            r@ == "LAND"@,
    {
        String::from_str("LAND")
    }

    /// The registry's logo location.
    pub fn dip721_logo(&self) -> (r: Option<String>)
        ensures
            r matches Some(u) && u@ == "https://kshetra-land-registry.com/logo.png"@,
    {
        Some(String::from_str("https://kshetra-land-registry.com/logo.png"))
    }

    /// The interfaces this registry implements.
    pub fn dip721_supported_interfaces(&self) -> (r: Vec<String>)
        ensures
            r.deep_view() =~= seq!["DIP721"@, "LandRegistry"@, "TransactionHistory"@],
    {
        let mut r: Vec<String> = Vec::new();
        r.push(String::from_str("DIP721"));
        r.push(String::from_str("LandRegistry"));
        r.push(String::from_str("TransactionHistory"));
        r
    }

    /// How many parcels exist.
    pub fn dip721_total_supply(&self) -> (r: u64)
        ensures
            r == self.state.parcels().len(),
    {
        self.state.land_parcels.len() as u64
    }

    /// How many parcels `owner` owns.
    pub fn dip721_balance_of(&self, owner: PrincipalId) -> (r: u64)
        ensures
            r == self.state.parcels().filter(|p: ParcelModel| p.owner == owner).len(),
    {
        let owned = self.state.get_all_parcels_by_owner(owner);
        proof {
            self.state.parcels().lemma_filter_len(|p: ParcelModel| p.owner == owner);
        }
        owned.len() as u64
    }

    /// The owner of a parcel, if it exists.
    pub fn dip721_owner_of(&self, token_id: u64) -> (r: Option<PrincipalId>)
        requires
            self.state.wf(),
        ensures
            r == if self.state.has_parcel(token_id) {
                Some(self.state.parcel(token_id).owner)
            } else {
                None::<PrincipalId>
            },
    {
        match self.state.find_parcel(token_id) {
            Some(i) => {
                proof {
                    self.state.lemma_parcel_index_is(i as int);
                }
                Some(self.state.land_parcels[i].owner)
            },
            None => None,
        }
    }

    /// The metadata of a parcel, if it exists.
    pub fn dip721_token_metadata(&self, token_id: u64) -> (r: Option<LandParcelMetadata>)
        requires
            self.state.wf(),
        ensures
            match r {
                Some(m) => self.state.has_parcel(token_id) && m@ == self.state.parcel(
                    token_id,
                ).metadata,
                None => !self.state.has_parcel(token_id),
            },
    {
        match self.state.find_parcel(token_id) {
            Some(i) => {
                proof {
                    self.state.lemma_parcel_index_is(i as int);
                }
                Some(self.state.land_parcels[i].metadata.clone())
            },
            None => None,
        }
    }

    /// A parcel with its certification witness, by identifier.
    pub fn get_land_by_id(&self, token_id: u64) -> (r: Option<(LandParcel, Vec<u8>)>)
        requires
            self.state.wf(),
        ensures
            match r {
                Some(pair) => self.state.has_parcel(token_id) && pair.0@ == self.state.parcel(
                    token_id,
                ) && pair.1@ == Seq::<u8>::empty(),
                None => !self.state.has_parcel(token_id),
            },
    {
        self.get_certified_parcel(token_id)
    }

    /// A parcel with its certification witness, by identifier.
    pub fn get_land_parcel(&self, token_id: u64) -> (r: Option<(LandParcel, Vec<u8>)>)
        requires
            self.state.wf(),
        ensures
            match r {
                Some(pair) => self.state.has_parcel(token_id) && pair.0@ == self.state.parcel(
                    token_id,
                ) && pair.1@ == Seq::<u8>::empty(),
                None => !self.state.has_parcel(token_id),
            },
    {
        self.get_certified_parcel(token_id)
    }

    /// The parcels owned by `owner`, in creation order.
    pub fn get_lands_by_owner(&self, owner: PrincipalId) -> (r: Vec<LandParcel>)
        ensures
            r.deep_view() == self.state.parcels().filter(|p: ParcelModel| p.owner == owner),
    {
        self.state.get_all_parcels_by_owner(owner)
    }

    /// The parcels owned by `owner`, each with its certification witness.
    pub fn get_parcels_by_owner(&self, owner: PrincipalId) -> (r: Vec<(LandParcel, Vec<u8>)>)
        ensures
            ({
                let owned = self.state.parcels().filter(|p: ParcelModel| p.owner == owner);
                &&& r@.len() == owned.len()
                &&& forall|k: int|
                    0 <= k < r@.len() ==> (#[trigger] r@[k]).0@ == owned[k] && r@[k].1@ == Seq::<
                        u8,
                    >::empty()
            }),
    {
        let owned = self.state.get_all_parcels_by_owner(owner);
        let mut r: Vec<(LandParcel, Vec<u8>)> = Vec::new();
        let n = owned.len();
        for k in 0..n
            invariant
                n == owned@.len(),
                owned.deep_view() == self.state.parcels().filter(
                    |p: ParcelModel| p.owner == owner,
                ),
                r@.len() == k,
                forall|j: int|
                    0 <= j < k ==> (#[trigger] r@[j]).0@ == owned.deep_view()[j] && r@[j].1@
                        == Seq::<u8>::empty(),
        {
            let cert: Vec<u8> = Vec::new();
            proof {
                assert(cert@ =~= Seq::<u8>::empty());
            }
            r.push((owned[k].clone(), cert));
        }
        r
    }

    /// The full transaction history of a parcel, oldest first, if it exists.
    pub fn get_ownership_history(&self, token_id: u64) -> (r: Option<Vec<TransactionRecord>>)
        requires
            self.state.wf(),
        ensures
            match r {
                Some(h) => self.state.has_parcel(token_id) && h.deep_view() == self.state.parcel(
                    token_id,
                ).history,
                None => !self.state.has_parcel(token_id),
            },
    {
        match self.state.find_parcel(token_id) {
            Some(i) => {
                proof {
                    self.state.lemma_parcel_index_is(i as int);
                }
                Some(clone_history(&self.state.land_parcels[i].history))
            },
            None => None,
        }
    }

    /// Adds a role to an identity's set (set semantics: granting a role the
    /// identity already holds changes nothing); only an administrator may
    /// assign roles.
    pub fn assign_role(&mut self, caller: PrincipalId, principal: PrincipalId, role: UserRole)
        -> (r: Result<(), RegistryError>)
        requires
            old(self).state.wf(),
        ensures
            final(self).state.wf(),
            ({
                let s = old(self).state;
                let t = final(self).state;
                if !s.holds_role(caller, UserRole::Admin) {
                    r == Err::<(), RegistryError>(RegistryError::Unauthorized) && t == s
                } else {
                    &&& r == Ok::<(), RegistryError>(())
                    &&& t.roles_of(principal) == if s.roles_of(principal).contains(role) {
                        s.roles_of(principal)
                    } else {
                        s.roles_of(principal).push(role)
                    }
                    &&& forall|q: PrincipalId| q != principal ==> t.roles_of(q) == s.roles_of(q)
                    &&& t == (LandRegistryState { user_roles: t.user_roles, ..s })
                }
            }),
    {
        if !self.has_role(&caller, &UserRole::Admin) {
            return Err(RegistryError::Unauthorized);
        }
        let ghost pre = self.state;
        match self.state.find_role_entry(principal) {
            Some(i) => {
                proof {
                    pre.lemma_role_entry_index_is(i as int);
                }
                if crate::document_storage::roles_include(
                    self.state.user_roles[i].1.as_slice(),
                    role,
                ) {
                    return Ok(());
                }
                self.state.user_roles[i].1.push(role);
                proof {
                    assert(forall|k: int|
                        0 <= k < self.state.user_roles@.len() && k != i ==> (
                        #[trigger] self.state.user_roles@[k]) == pre.user_roles@[k]);
                    assert(self.state.user_roles@[i as int].0 == principal);
                    assert(self.state.roles_unique());
                    self.state.lemma_role_entry_index_is(i as int);
                    lemma_roles_frame(pre, self.state, principal);
                    assert(self.state.roles_of(principal) =~= pre.roles_of(principal).push(role));
                }
                Ok(())
            },
            None => {
                let mut fresh: Vec<UserRole> = Vec::new();
                fresh.push(role);
                self.state.user_roles.push((principal, fresh));
                proof {
                    assert(forall|k: int|
                        0 <= k < pre.user_roles@.len() ==> (#[trigger] self.state.user_roles@[k])
                            == pre.user_roles@[k]);
                    assert(self.state.roles_unique());
                    self.state.lemma_role_entry_index_is(pre.user_roles@.len() as int);
                    lemma_roles_frame(pre, self.state, principal);
                    assert(self.state.roles_of(principal) =~= pre.roles_of(principal).push(role));
                }
                Ok(())
            },
        }
    }

    /// Prepares a freshly deployed registry: records the deployer as the
    /// registry's owner and gives it the administrator role.
    pub fn init(&mut self, caller: PrincipalId)
        requires
            old(self).state.wf(),
        ensures
            final(self).state.wf(),
            final(self).state.owner == caller,
            final(self).state.roles_of(caller) =~= seq![UserRole::Admin],
            forall|q: PrincipalId|
                q != caller ==> final(self).state.roles_of(q) == old(self).state.roles_of(q),
            final(self).state.next_token_id == old(self).state.next_token_id,
            final(self).state.land_parcels == old(self).state.land_parcels,
            final(self).state.token_approvals == old(self).state.token_approvals,
    {
        self.set_owner(caller);
        let ghost mid = self.state;
        let mut roles: Vec<UserRole> = Vec::new();
        roles.push(UserRole::Admin);
        proof {
            assert(roles@ =~= seq![UserRole::Admin]);
        }
        self.insert_user_roles(caller, roles);
        proof {
            crate::storage::lemma_roles_same_store(old(self).state, mid);
        }
        self.init_certified_data();
    }

    /// Whether `principal` holds `role`.
    pub fn has_role(&self, principal: &PrincipalId, role: &UserRole) -> (r: bool)
        requires
            self.state.wf(),
        ensures
            r == self.state.holds_role(*principal, *role),
    {
        match self.state.find_role_entry(*principal) {
            Some(i) => {
                proof {
                    self.state.lemma_role_entry_index_is(i as int);
                }
                crate::document_storage::roles_include(
                    self.state.user_roles[i].1.as_slice(),
                    *role,
                )
            },
            None => false,
        }
    }

    /// Grants `Ok` exactly when one of the caller's roles carries the
    /// permission; refuses with `Unauthorized` otherwise.
    pub fn check_permission(&self, principal: &PrincipalId, permission: &Permission) -> (r: Result<
        (),
        RegistryError,
    >)
        requires
            self.state.wf(),
        ensures
            r == if spec_has_permission(self.state, *principal, *permission) {
                Ok::<(), RegistryError>(())
            } else {
                Err::<(), RegistryError>(RegistryError::Unauthorized)
            },
    {
        let user_roles = self.get_user_roles(*principal);
        let n = user_roles.len();
        for i in 0..n
            invariant
                n == user_roles@.len(),
                user_roles@ == self.state.roles_of(*principal),
                forall|k: int|
                    0 <= k < i ==> !spec_role_permissions(#[trigger] user_roles@[k]).contains(
                        *permission,
                    ),
        {
            let role_permissions = crate::types::get_role_permissions(&user_roles[i]);
            if permissions_contain(&role_permissions, *permission) {
                proof {
                    assert(spec_role_permissions(self.state.roles_of(*principal)[i as int])
                        .contains(*permission));
                }
                return Ok(());
            }
        }
        Err(RegistryError::Unauthorized)
    }

    /// Builds a session for the caller: a day's validity from `now`, carrying
    /// the caller's roles.
    pub fn authenticate_user(&self, caller: &PrincipalId, now: u64) -> (r: Result<
        AuthSession,
        RegistryError,
    >)
        requires
            self.state.wf(),
            now + 24 * 60 * 60_000_000 <= u64::MAX,
        ensures
            r matches Ok(session) && session.principal == *caller && session.created_at == now
                && session.expires_at == now + 24 * 60 * 60_000_000 && session.roles@
                == self.state.roles_of(*caller),
    {
        let roles = self.get_user_roles(*caller);
        Ok(
            AuthSession {
                principal: *caller,
                expires_at: now + 24 * 60 * 60_000_000,
                created_at: now,
                roles,
            },
        )
    }
}

/// Law: in every well-formed registry state, parcel identifiers strictly
/// increase in creation order, so no two parcels ever share an identifier —
/// revocation removes nothing from the store, so identifiers are never
/// reused.
pub proof fn lemma_parcel_ids_strictly_increasing(s: LandRegistryState)
    requires
        s.wf(),
    ensures
        forall|i: int, j: int|
            0 <= i < j < s.parcels().len() ==> (#[trigger] s.parcels()[i]).token_id < (
            #[trigger] s.parcels()[j]).token_id,
        forall|i: int, j: int|
            0 <= i < s.parcels().len() && 0 <= j < s.parcels().len() && i != j ==> (
            #[trigger] s.parcels()[i]).token_id != (#[trigger] s.parcels()[j]).token_id,
{
    assert forall|i: int, j: int|
        0 <= i < s.parcels().len() && 0 <= j < s.parcels().len() && i != j implies (
    #[trigger] s.parcels()[i]).token_id != (#[trigger] s.parcels()[j]).token_id by {
        if i < j {
            assert(s.parcels()[i].token_id < s.parcels()[j].token_id);
        } else {
            assert(s.parcels()[j].token_id < s.parcels()[i].token_id);
        }
    }
}

/// Law: every existing parcel's identifier lies strictly below the
/// identifier the next creation hands out, so a newly created parcel's
/// identifier exceeds every identifier ever assigned.
pub proof fn lemma_next_id_fresh(s: LandRegistryState)
    requires
        s.wf(),
    ensures
        forall|i: int|
            0 <= i < s.parcels().len() ==> (#[trigger] s.parcels()[i]).token_id
                < s.next_token_id,
{
}

/// Whether a vector of permissions holds `x`.
fn permissions_contain(v: &Vec<Permission>, x: Permission) -> (r: bool)
    ensures
        r == v@.contains(x),
{
    let n = v.len();
    for i in 0..n
        invariant
            n == v.len(),
            forall|k: int| 0 <= k < i ==> v@[k] != x,
    {
        if v[i] == x {
            return true;
        }
    }
    false
}

} // verus!
