//! A folder data-access library: the `Folder` domain entity, its request and
//! response shapes, and a repository capability set {create, get-by-id,
//! get-by-owner, update, delete} over a keyed document store, with a verified
//! in-memory adapter.

pub mod folder;
pub mod repo;
