//! The layer that puts the database-backed provider in front of an RPC
//! provider.
use std::path::PathBuf;
use tokio::runtime::Handle;
use vstd::prelude::*;

verus! {

/// A path on the file system, owned.
#[verifier::external_type_specification]
#[verifier::external_body]
pub struct ExPathBuf(std::path::PathBuf);

/// A handle to a tokio runtime.
#[verifier::external_type_specification]
#[verifier::external_body]
pub struct ExHandle(tokio::runtime::Handle);

/// The layer that intercepts the requests of an RPC provider and answers
/// them from the node's database at `db_path`, the node's data directory.
pub struct RethDbLayer {
    db_path: PathBuf,
    handle: Handle,
}

impl RethDbLayer {
    /// The node's data directory.
    pub closed spec fn db_path_spec(&self) -> PathBuf {
        self.db_path
    }

    /// The runtime that the layer's provider works on.
    pub closed spec fn handle_spec(&self) -> Handle {
        self.handle
    }

    /// A layer over the node's data directory `db_path`, working on the
    /// runtime `handle`.
    pub fn new(db_path: PathBuf, handle: Handle) -> (r: Self)
        ensures
            r.db_path_spec() == db_path,
            r.handle_spec() == handle,
    {
        RethDbLayer { db_path, handle }
    }

    /// The node's data directory.
    pub fn db_path(&self) -> (r: &PathBuf)
        ensures
            *r == self.db_path_spec(),
    {
        &self.db_path
    }

    /// The runtime that the layer's provider works on.
    pub fn handle(&self) -> (r: &Handle)
        ensures
            *r == self.handle_spec(),
    {
        &self.handle
    }
}

} // verus!
