//! The registry's mutable stores: parcels, role assignments, and transfer
//! approvals, with their well-formedness invariant and lookup operations.

use vstd::prelude::*;

use crate::document_storage::{
    DocumentQueryFilter, DocumentRegistrationRequest, DocumentRetrievalResponse,
    DocumentValidationError,
};
use crate::seq_lemmas::lemma_filter_take_step;
use crate::types::{clone_roles, LandParcel, ParcelModel, PrincipalId, UserRole};

verus! {

/// The whole mutable state of the registry.
///
/// Parcels are kept in creation order with strictly increasing identifiers;
/// role assignments and transfer approvals are association lists with unique
/// keys (insertion order kept).
#[derive(Debug)]
pub struct LandRegistryState {
    pub next_token_id: u64,
    pub owner: PrincipalId,
    pub land_parcels: Vec<LandParcel>,
    pub user_roles: Vec<(PrincipalId, Vec<UserRole>)>,
    pub token_approvals: Vec<(u64, PrincipalId)>,
}

impl LandRegistryState {
    /// The parcels, as their mathematical models, in creation order.
    pub open spec fn parcels(self) -> Seq<ParcelModel> {
        self.land_parcels.deep_view()
    }

    /// Whether a parcel with this identifier exists.
    pub open spec fn has_parcel(self, token_id: u64) -> bool {
        exists|i: int|
            0 <= i < self.parcels().len() && (#[trigger] self.parcels()[i]).token_id == token_id
    }

    /// The position of the parcel with this identifier.
    pub open spec fn parcel_index(self, token_id: u64) -> int {
        choose|i: int|
            0 <= i < self.parcels().len() && (#[trigger] self.parcels()[i]).token_id == token_id
    }

    /// The parcel with this identifier.
    pub open spec fn parcel(self, token_id: u64) -> ParcelModel {
        self.parcels()[self.parcel_index(token_id)]
    }

    /// Whether this identity has a role entry.
    pub open spec fn has_role_entry(self, p: PrincipalId) -> bool {
        exists|i: int| 0 <= i < self.user_roles@.len() && (#[trigger] self.user_roles@[i]).0 == p
    }

    /// The position of this identity's role entry.
    pub open spec fn role_entry_index(self, p: PrincipalId) -> int {
        choose|i: int| 0 <= i < self.user_roles@.len() && (#[trigger] self.user_roles@[i]).0 == p
    }

    /// The roles this identity holds; an unknown identity holds none.
    pub open spec fn roles_of(self, p: PrincipalId) -> Seq<UserRole> {
        if self.has_role_entry(p) {
            self.user_roles@[self.role_entry_index(p)].1@
        } else {
            Seq::empty()
        }
    }

    /// Whether this identity holds the given role.
    pub open spec fn holds_role(self, p: PrincipalId, role: UserRole) -> bool {
        self.roles_of(p).contains(role)
    }

    /// Whether this identity may create or approve parcels.
    pub open spec fn is_registrar_or_admin(self, p: PrincipalId) -> bool {
        self.holds_role(p, UserRole::LandRegistrar) || self.holds_role(p, UserRole::Admin)
    }

    /// Whether this parcel has an approval entry.
    pub open spec fn has_approval_entry(self, token_id: u64) -> bool {
        exists|i: int|
            0 <= i < self.token_approvals@.len() && (#[trigger] self.token_approvals@[i]).0
                == token_id
    }

    /// The position of this parcel's approval entry.
    pub open spec fn approval_index(self, token_id: u64) -> int {
        choose|i: int|
            0 <= i < self.token_approvals@.len() && (#[trigger] self.token_approvals@[i]).0
                == token_id
    }

    /// The delegate approved for this parcel, if any.
    pub open spec fn approved_of(self, token_id: u64) -> Option<PrincipalId> {
        if self.has_approval_entry(token_id) {
            Some(self.token_approvals@[self.approval_index(token_id)].1)
        } else {
            None
        }
    }

    /// Parcel identifiers start at one, grow strictly along the creation
    /// order, stay below the next identifier to hand out, and every parcel's
    /// history is non-empty.
    pub open spec fn parcels_wf(self) -> bool {
        &&& forall|i: int|
            0 <= i < self.parcels().len() ==> 1 <= (#[trigger] self.parcels()[i]).token_id
                < self.next_token_id
        &&& forall|i: int|
            0 <= i < self.parcels().len() ==> (#[trigger] self.parcels()[i]).history.len() >= 1
        &&& forall|i: int, j: int|
            0 <= i < j < self.parcels().len() ==> (#[trigger] self.parcels()[i]).token_id < (
            #[trigger] self.parcels()[j]).token_id
    }

    /// The role store holds at most one entry per identity.
    pub open spec fn roles_unique(self) -> bool {
        forall|i: int, j: int|
            0 <= i < j < self.user_roles@.len() ==> (#[trigger] self.user_roles@[i]).0 != (
            #[trigger] self.user_roles@[j]).0
    }

    /// The approval store holds at most one entry per parcel.
    pub open spec fn approvals_unique(self) -> bool {
        forall|i: int, j: int|
            0 <= i < j < self.token_approvals@.len() ==> (#[trigger] self.token_approvals@[i]).0
                != (#[trigger] self.token_approvals@[j]).0
    }

    /// Well-formedness of the whole state.
    pub open spec fn wf(self) -> bool {
        &&& 1 <= self.next_token_id
        &&& self.parcels_wf()
        &&& self.roles_unique()
        &&& self.approvals_unique()
    }

    /// In a well-formed state, the parcel at position `i` is the one its
    /// identifier looks up.
    pub proof fn lemma_parcel_index_is(self, i: int)
        requires
            self.parcels_wf(),
            0 <= i < self.parcels().len(),
        ensures
            self.has_parcel(self.parcels()[i].token_id),
            self.parcel_index(self.parcels()[i].token_id) == i,
    {
        let id = self.parcels()[i].token_id;
        assert(self.has_parcel(id));
        let j = self.parcel_index(id);
        if j < i {
            assert(self.parcels()[j].token_id < self.parcels()[i].token_id);
        } else if i < j {
            assert(self.parcels()[i].token_id < self.parcels()[j].token_id);
        }
    }

    /// With unique keys, the role entry at position `i` is the one its key
    /// looks up.
    pub proof fn lemma_role_entry_index_is(self, i: int)
        requires
            self.roles_unique(),
            0 <= i < self.user_roles@.len(),
        ensures
            self.has_role_entry(self.user_roles@[i].0),
            self.role_entry_index(self.user_roles@[i].0) == i,
    {
        let p = self.user_roles@[i].0;
        assert(self.has_role_entry(p));
        let j = self.role_entry_index(p);
        if j < i {
            assert(self.user_roles@[j].0 != self.user_roles@[i].0);
        } else if i < j {
            assert(self.user_roles@[i].0 != self.user_roles@[j].0);
        }
    }

    /// With unique keys, the approval entry at position `i` is the one its
    /// key looks up.
    pub proof fn lemma_approval_index_is(self, i: int)
        requires
            self.approvals_unique(),
            0 <= i < self.token_approvals@.len(),
        ensures
            self.has_approval_entry(self.token_approvals@[i].0),
            self.approval_index(self.token_approvals@[i].0) == i,
    {
        let id = self.token_approvals@[i].0;
        assert(self.has_approval_entry(id));
        let j = self.approval_index(id);
        if j < i {
            assert(self.token_approvals@[j].0 != self.token_approvals@[i].0);
        } else if i < j {
            assert(self.token_approvals@[i].0 != self.token_approvals@[j].0);
        }
    }

    /// Finds the position of a parcel by identifier.
    pub(crate) fn find_parcel(&self, token_id: u64) -> (r: Option<usize>)
        ensures
            match r {
                Some(i) => 0 <= i < self.parcels().len() && self.parcels()[i as int].token_id
                    == token_id,
                None => !self.has_parcel(token_id),
            },
    {
        let n = self.land_parcels.len();
        for i in 0..n
            invariant
                n == self.land_parcels@.len(),
                forall|k: int| 0 <= k < i ==> (#[trigger] self.parcels()[k]).token_id != token_id,
        {
            if self.land_parcels[i].token_id == token_id {
                return Some(i);
            }
        }
        None
    }

    /// Finds the position of an identity's role entry.
    pub(crate) fn find_role_entry(&self, p: PrincipalId) -> (r: Option<usize>)
        ensures
            match r {
                Some(i) => 0 <= i < self.user_roles@.len() && self.user_roles@[i as int].0 == p,
                None => !self.has_role_entry(p),
            },
    {
        let n = self.user_roles.len();
        for i in 0..n
            invariant
                n == self.user_roles@.len(),
                forall|k: int| 0 <= k < i ==> (#[trigger] self.user_roles@[k]).0 != p,
        {
            if self.user_roles[i].0.id == p.id {
                return Some(i);
            }
        }
        None
    }

    /// Finds the position of a parcel's approval entry.
    pub(crate) fn find_approval(&self, token_id: u64) -> (r: Option<usize>)
        ensures
            match r {
                Some(i) => 0 <= i < self.token_approvals@.len() && self.token_approvals@[
                    i as int
                ].0 == token_id,
                None => !self.has_approval_entry(token_id),
            },
    {
        let n = self.token_approvals.len();
        for i in 0..n
            invariant
                n == self.token_approvals@.len(),
                forall|k: int| 0 <= k < i ==> (#[trigger] self.token_approvals@[k]).0 != token_id,
        {
            if self.token_approvals[i].0 == token_id {
                return Some(i);
            }
        }
        None
    }

    /// The parcels owned by `owner`, in creation order.
    pub fn get_all_parcels_by_owner(&self, owner: PrincipalId) -> (r: Vec<LandParcel>)
        ensures
            r.deep_view() == self.parcels().filter(|p: ParcelModel| p.owner == owner),
    {
        let mut r: Vec<LandParcel> = Vec::new();
        let n = self.land_parcels.len();
        for i in 0..n
            invariant
                n == self.land_parcels@.len(),
                r.deep_view() =~= self.parcels().take(i as int).filter(
                    |p: ParcelModel| p.owner == owner,
                ),
        {
            proof {
                lemma_filter_take_step(self.parcels(), |p: ParcelModel| p.owner == owner, i as int);
            }
            if self.land_parcels[i].owner.id == owner.id {
                r.push(self.land_parcels[i].clone());
                proof {
                    assert(r.deep_view() =~= self.parcels().take(i + 1).filter(
                        |p: ParcelModel| p.owner == owner,
                    ));
                }
            }
        }
        proof {
            assert(self.parcels().take(n as int) =~= self.parcels());
        }
        r
    }
}

/// Role lookups agree on every identity but `touched` when the role entries
/// keep their keys in place, entries under other keys are untouched, and any
/// new entries carry the key `touched`.
pub proof fn lemma_roles_frame(
    pre: LandRegistryState,
    post: LandRegistryState,
    touched: PrincipalId,
)
    requires
        pre.roles_unique(),
        post.roles_unique(),
        pre.user_roles@.len() <= post.user_roles@.len(),
        forall|k: int|
            0 <= k < pre.user_roles@.len() ==> (#[trigger] post.user_roles@[k]).0
                == pre.user_roles@[k].0,
        forall|k: int|
            0 <= k < pre.user_roles@.len() && (#[trigger] pre.user_roles@[k]).0 != touched
                ==> post.user_roles@[k] == pre.user_roles@[k],
        forall|k: int|
            pre.user_roles@.len() <= k < post.user_roles@.len() ==> (
            #[trigger] post.user_roles@[k]).0 == touched,
    ensures
        forall|q: PrincipalId| q != touched ==> post.roles_of(q) == pre.roles_of(q),
{
    assert forall|q: PrincipalId| q != touched implies post.roles_of(q) == pre.roles_of(q) by {
        if pre.has_role_entry(q) {
            let k = pre.role_entry_index(q);
            assert(0 <= k < pre.user_roles@.len() && pre.user_roles@[k].0 == q);
            assert(post.user_roles@[k] == pre.user_roles@[k]);
            post.lemma_role_entry_index_is(k);
        } else if post.has_role_entry(q) {
            let k = post.role_entry_index(q);
            assert(0 <= k < post.user_roles@.len() && post.user_roles@[k].0 == q);
            if k < pre.user_roles@.len() {
                assert(pre.user_roles@[k].0 == q);
                assert(pre.has_role_entry(q));
            }
            assert(false);
        }
    }
}

/// Approval lookups agree on every parcel but `touched` when the approval
/// entries keep their keys in place, entries under other keys are untouched,
/// and any new entries carry the key `touched`.
pub proof fn lemma_approvals_frame(pre: LandRegistryState, post: LandRegistryState, touched: u64)
    requires
        pre.approvals_unique(),
        post.approvals_unique(),
        pre.token_approvals@.len() <= post.token_approvals@.len(),
        forall|k: int|
            0 <= k < pre.token_approvals@.len() ==> (#[trigger] post.token_approvals@[k]).0
                == pre.token_approvals@[k].0,
        forall|k: int|
            0 <= k < pre.token_approvals@.len() && (#[trigger] pre.token_approvals@[k]).0
                != touched ==> post.token_approvals@[k] == pre.token_approvals@[k],
        forall|k: int|
            pre.token_approvals@.len() <= k < post.token_approvals@.len() ==> (
            #[trigger] post.token_approvals@[k]).0 == touched,
    ensures
        forall|id: u64| id != touched ==> post.approved_of(id) == pre.approved_of(id),
{
    assert forall|id: u64| id != touched implies post.approved_of(id) == pre.approved_of(id) by {
        if pre.has_approval_entry(id) {
            let k = pre.approval_index(id);
            assert(0 <= k < pre.token_approvals@.len() && pre.token_approvals@[k].0 == id);
            assert(post.token_approvals@[k] == pre.token_approvals@[k]);
            post.lemma_approval_index_is(k);
        } else if post.has_approval_entry(id) {
            let k = post.approval_index(id);
            assert(0 <= k < post.token_approvals@.len() && post.token_approvals@[k].0 == id);
            if k < pre.token_approvals@.len() {
                assert(pre.token_approvals@[k].0 == id);
                assert(pre.has_approval_entry(id));
            }
            assert(false);
        }
    }
}

/// Two states with the same role store give every identity the same roles.
pub proof fn lemma_roles_same_store(a: LandRegistryState, b: LandRegistryState)
    requires
        a.user_roles@ == b.user_roles@,
        a.roles_unique(),
    ensures
        forall|q: PrincipalId| a.roles_of(q) == b.roles_of(q),
{
    assert forall|q: PrincipalId| a.roles_of(q) == b.roles_of(q) by {
        if a.has_role_entry(q) {
            let k = a.role_entry_index(q);
            assert(0 <= k < a.user_roles@.len() && a.user_roles@[k].0 == q);
            assert(b.user_roles@[k].0 == q);
            b.lemma_role_entry_index_is(k);
            a.lemma_role_entry_index_is(k);
        } else if b.has_role_entry(q) {
            let k = b.role_entry_index(q);
            assert(0 <= k < b.user_roles@.len() && b.user_roles@[k].0 == q);
            assert(a.user_roles@[k].0 == q);
            assert(a.has_role_entry(q));
            assert(false);
        }
    }
}

/// Two states with the same parcel store agree on every parcel lookup.
pub proof fn lemma_parcels_same_store(a: LandRegistryState, b: LandRegistryState)
    requires
        a.land_parcels@ == b.land_parcels@,
        a.next_token_id == b.next_token_id,
        a.parcels_wf(),
    ensures
        forall|id: u64| a.has_parcel(id) == b.has_parcel(id),
        forall|id: u64|
            #[trigger] a.has_parcel(id) ==> a.parcel_index(id) == b.parcel_index(id) && a.parcel(
                id,
            ) == b.parcel(id),
{
    assert(a.parcels() =~= b.parcels());
    assert forall|id: u64| a.has_parcel(id) == b.has_parcel(id) by {
        if a.has_parcel(id) {
            let k = a.parcel_index(id);
            assert(0 <= k < a.parcels().len() && a.parcels()[k].token_id == id);
            assert(b.parcels()[k].token_id == id);
            assert(b.has_parcel(id));
        }
        if b.has_parcel(id) {
            let k = b.parcel_index(id);
            assert(0 <= k < b.parcels().len() && b.parcels()[k].token_id == id);
            assert(a.parcels()[k].token_id == id);
            assert(a.has_parcel(id));
        }
    }
    assert forall|id: u64| #[trigger] a.has_parcel(id) implies a.parcel_index(id)
        == b.parcel_index(id) && a.parcel(id) == b.parcel(id) by {
        let k = a.parcel_index(id);
        assert(0 <= k < a.parcels().len() && a.parcels()[k].token_id == id);
        assert(b.parcels()[k].token_id == id);
        b.lemma_parcel_index_is(k);
        a.lemma_parcel_index_is(k);
    }
}

/// Two states with the same approval store give every parcel the same
/// delegate.
pub proof fn lemma_approvals_same_store(a: LandRegistryState, b: LandRegistryState)
    requires
        a.token_approvals@ == b.token_approvals@,
        a.approvals_unique(),
    ensures
        forall|id: u64| a.approved_of(id) == b.approved_of(id),
{
    assert forall|id: u64| a.approved_of(id) == b.approved_of(id) by {
        if a.has_approval_entry(id) {
            let k = a.approval_index(id);
            assert(0 <= k < a.token_approvals@.len() && a.token_approvals@[k].0 == id);
            assert(b.token_approvals@[k].0 == id);
            b.lemma_approval_index_is(k);
            a.lemma_approval_index_is(k);
        } else if b.has_approval_entry(id) {
            let k = b.approval_index(id);
            assert(0 <= k < b.token_approvals@.len() && b.token_approvals@[k].0 == id);
            assert(a.token_approvals@[k].0 == id);
            assert(a.has_approval_entry(id));
            assert(false);
        }
    }
}

/// Removing the approval entry at position `r` clears that parcel's approval
/// and leaves every other parcel's approval as it was.
pub proof fn lemma_approvals_remove(
    pre: LandRegistryState,
    post: LandRegistryState,
    touched: u64,
    r: int,
)
    requires
        pre.approvals_unique(),
        0 <= r < pre.token_approvals@.len(),
        pre.token_approvals@[r].0 == touched,
        post.token_approvals@ == pre.token_approvals@.remove(r),
    ensures
        post.approvals_unique(),
        post.approved_of(touched) is None,
        forall|id: u64| id != touched ==> post.approved_of(id) == pre.approved_of(id),
{
    let pres = pre.token_approvals@;
    let posts = post.token_approvals@;
    assert(forall|k: int|
        0 <= k < posts.len() ==> #[trigger] posts[k] == if k < r {
            pres[k]
        } else {
            pres[k + 1]
        });
    assert(post.approvals_unique());
    if post.has_approval_entry(touched) {
        let k = post.approval_index(touched);
        assert(0 <= k < posts.len() && posts[k].0 == touched);
        if k < r {
            assert(pres[k].0 != pres[r].0);
        } else {
            assert(pres[r].0 != pres[k + 1].0);
        }
        assert(false);
    }
    assert forall|id: u64| id != touched implies post.approved_of(id) == pre.approved_of(id) by {
        if pre.has_approval_entry(id) {
            let k = pre.approval_index(id);
            assert(0 <= k < pres.len() && pres[k].0 == id);
            if k < r {
                assert(posts[k] == pres[k]);
                post.lemma_approval_index_is(k);
            } else {
                assert(posts[k - 1] == pres[k]);
                post.lemma_approval_index_is(k - 1);
            }
        } else if post.has_approval_entry(id) {
            let k = post.approval_index(id);
            assert(0 <= k < posts.len() && posts[k].0 == id);
            if k < r {
                assert(pres[k].0 == id);
            } else {
                assert(pres[k + 1].0 == id);
            }
            assert(pre.has_approval_entry(id));
            assert(false);
        }
    }
}

impl Default for LandRegistryState {
    /// A fresh registry: no parcels, no roles, no approvals, identifiers
    /// starting at one, owned by the anonymous identity.
    fn default() -> (r: Self)
        ensures
            r.wf(),
            r.next_token_id == 1,
            r.owner.id == 0,
            r.parcels() =~= Seq::<ParcelModel>::empty(),
            r.user_roles@ =~= Seq::<(PrincipalId, Vec<UserRole>)>::empty(),
            r.token_approvals@ =~= Seq::<(u64, PrincipalId)>::empty(),
    {
        LandRegistryState {
            next_token_id: 1,
            owner: PrincipalId::anonymous(),
            land_parcels: Vec::new(),
            user_roles: Vec::new(),
            token_approvals: Vec::new(),
        }
    }
}

/// The registry service: owns the state and is the sole entry point for
/// mutation.
#[derive(Debug)]
pub struct LandRegistry {
    pub state: LandRegistryState,
}

impl LandRegistry {
    /// A fresh registry service over an empty, well-formed state.
    pub fn new() -> (r: Self)
        ensures
            r.state.wf(),
            r.state.next_token_id == 1,
            r.state.owner.id == 0,
            r.state.parcels() =~= Seq::<ParcelModel>::empty(),
            r.state.user_roles@ =~= Seq::<(PrincipalId, Vec<UserRole>)>::empty(),
            r.state.token_approvals@ =~= Seq::<(u64, PrincipalId)>::empty(),
    {
        LandRegistry { state: LandRegistryState::default() }
    }

    /// Records who owns the registry itself.
    pub fn set_owner(&mut self, owner: PrincipalId)
        ensures
            final(self).state == (LandRegistryState { owner, ..old(self).state }),
    {
        self.state.owner = owner;
    }

    /// The identity that owns the registry itself.
    pub fn get_owner(&self) -> (r: PrincipalId)
        ensures
            r == self.state.owner,
    {
        self.state.owner
    }

    /// Replaces the role set of `principal` with `roles`; every other
    /// identity's roles are untouched.
    pub fn insert_user_roles(&mut self, principal: PrincipalId, roles: Vec<UserRole>)
        requires
            old(self).state.wf(),
        ensures
            final(self).state.wf(),
            final(self).state.roles_of(principal) == roles@,
            forall|q: PrincipalId|
                q != principal ==> final(self).state.roles_of(q) == old(self).state.roles_of(q),
            final(self).state == (LandRegistryState {
                user_roles: final(self).state.user_roles,
                ..old(self).state
            }),
    {
        let ghost pre = self.state;
        match self.state.find_role_entry(principal) {
            Some(i) => {
                self.state.user_roles[i].1 = roles;
                proof {
                    assert(forall|k: int|
                        0 <= k < self.state.user_roles@.len() && k != i ==> (
                        #[trigger] self.state.user_roles@[k]) == pre.user_roles@[k]);
                    assert(self.state.user_roles@[i as int].0 == principal);
                    assert(self.state.roles_unique());
                    self.state.lemma_role_entry_index_is(i as int);
                    lemma_roles_frame(pre, self.state, principal);
                }
            },
            None => {
                self.state.user_roles.push((principal, roles));
                proof {
                    assert(forall|k: int|
                        0 <= k < pre.user_roles@.len() ==> (#[trigger] self.state.user_roles@[k])
                            == pre.user_roles@[k]);
                    assert(self.state.roles_unique());
                    self.state.lemma_role_entry_index_is(pre.user_roles@.len() as int);
                    lemma_roles_frame(pre, self.state, principal);
                }
            },
        }
    }

    /// The roles held by `principal`; an unknown identity holds none.
    pub fn get_user_roles(&self, principal: PrincipalId) -> (r: Vec<UserRole>)
        requires
            self.state.wf(),
        ensures
            r@ == self.state.roles_of(principal),
    {
        match self.state.find_role_entry(principal) {
            Some(i) => {
                proof {
                    self.state.lemma_role_entry_index_is(i as int);
                }
                clone_roles(&self.state.user_roles[i].1)
            },
            None => Vec::new(),
        }
    }

    /// Certified data is maintained by the hosting environment; this model
    /// keeps nothing to initialise.
    pub fn init_certified_data(&self) {
    }

    /// A parcel together with its (empty) certification witness.
    pub fn get_certified_parcel(&self, token_id: u64) -> (r: Option<(LandParcel, Vec<u8>)>)
        requires
            self.state.wf(),
        ensures
            match r {
                Some(pair) => self.state.has_parcel(token_id) && pair.0@ == self.state.parcel(
                    token_id,
                ) && pair.1@ == Seq::<u8>::empty(),
                None => !self.state.has_parcel(token_id),
            },
    {
        match self.state.find_parcel(token_id) {
            Some(i) => {
                proof {
                    self.state.lemma_parcel_index_is(i as int);
                }
                let parcel = self.state.land_parcels[i].clone();
                let cert: Vec<u8> = Vec::new();
                proof {
                    assert(cert@ =~= Seq::<u8>::empty());
                }
                Some((parcel, cert))
            },
            None => None,
        }
    }

    /// The roles of an identity together with an (empty) certification
    /// witness; `None` when the identity holds no roles.
    pub fn get_certified_user_roles(&self, principal: PrincipalId) -> (r: Option<
        (Vec<UserRole>, Vec<u8>),
    >)
        requires
            self.state.wf(),
        ensures
            match r {
                Some(pair) => self.state.roles_of(principal).len() > 0 && pair.0@
                    == self.state.roles_of(principal) && pair.1@ == Seq::<u8>::empty(),
                None => self.state.roles_of(principal).len() == 0,
            },
    {
        let roles = self.get_user_roles(principal);
        if roles.len() == 0 {
            None
        } else {
            let cert: Vec<u8> = Vec::new();
            proof {
                assert(cert@ =~= Seq::<u8>::empty());
            }
            Some((roles, cert))
        }
    }

    /// Document registration is delegated to the external document
    /// collaborator; the core itself accepts none.
    pub fn register_document(_request: DocumentRegistrationRequest) -> (r: Result<
        String,
        DocumentValidationError,
    >)
        ensures
            r == Err::<String, DocumentValidationError>(DocumentValidationError::InvalidMetadata),
    {
        Err(DocumentValidationError::InvalidMetadata)
    }

    /// Document retrieval is delegated to the external document collaborator;
    /// the core itself stores none.
    pub fn fetch_document_by_id(_document_id: &str) -> (r: Option<DocumentRetrievalResponse>)
        ensures
            r is None,
    {
        None
    }

    /// Document queries are delegated to the external document collaborator;
    /// the core itself stores none.
    pub fn query_documents(_filter: DocumentQueryFilter) -> (r: Vec<DocumentRetrievalResponse>)
        ensures
            r@.len() == 0,
    {
        Vec::new()
    }
}

} // verus!
