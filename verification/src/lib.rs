//! A verified land-parcel registry: parcels with a pending/registered/revoked
//! lifecycle, role-based authorization, delegated transfer approvals, and an
//! append-only transaction history per parcel.

pub mod digest;
pub mod document_storage;
pub mod marketplace;
pub mod registry;
pub mod seq_lemmas;
pub mod storage;
pub mod types;
