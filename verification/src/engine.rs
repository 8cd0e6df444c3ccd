//! Results and settings of program execution: the changes a run made to the
//! DAG ledger and the storage a run uses.

use vstd::prelude::*;
use crate::text::str_eq;

verus! {

broadcast use vstd::string::group_string_axioms;

/// Changes to the DAG ledger made by running a program, with ledger nodes of
/// type `N`.
#[derive(Debug, Clone)]
pub struct DagDelta<N> {
    /// New nodes added to the DAG
    pub added_nodes: Vec<N>,
    /// Namespace used for the operations
    pub namespace: String,
    /// Number of operations executed
    pub operations_executed: usize,
    /// Whether the operation was successful
    pub success: bool,
    /// Any error message if the operation failed
    pub error: Option<String>,
}

impl<N> DagDelta<N> {
    /// An empty, successful delta.
    pub fn new(namespace: String) -> (r: DagDelta<N>)
        ensures
            r.added_nodes@.len() == 0,
            r.namespace == namespace,
            r.operations_executed == 0,
            r.success,
            r.error is None,
    {
        DagDelta { added_nodes: Vec::new(), namespace, operations_executed: 0, success: true, error: None }
    }

    /// A delta for a failed operation, carrying its error.
    pub fn error(namespace: String, error: String) -> (r: DagDelta<N>)
        ensures
            r.added_nodes@.len() == 0,
            r.namespace == namespace,
            r.operations_executed == 0,
            !r.success,
            r.error == Some(error),
    {
        DagDelta { added_nodes: Vec::new(), namespace, operations_executed: 0, success: false, error: Some(error) }
    }
}

/// Where a run keeps its storage.
#[derive(Debug, Clone, PartialEq, Eq)]
pub enum StorageBackendType {
    /// In-memory storage that doesn't persist between runs
    Memory,
    /// File-based storage under the given directory
    File(String),
}

impl Default for StorageBackendType {
    fn default() -> (r: StorageBackendType)
        ensures
            r == StorageBackendType::Memory,
    {
        StorageBackendType::Memory
    }
}

impl StorageBackendType {
    /// The storage named on the command line: `file` uses `path`, anything
    /// else memory.
    pub fn from_args(backend: &str, path: &str) -> (r: StorageBackendType)
        ensures
            backend@ == "file"@ ==> (r matches StorageBackendType::File(p) && p@ == path@),
            backend@ != "file"@ ==> r == StorageBackendType::Memory,
    {
        proof {
            reveal_strlit("memory");
            reveal_strlit("file");
            assert("memory"@.len() == 6);
            assert("file"@.len() == 4);
        }
        if str_eq(backend, "memory") {
            StorageBackendType::Memory
        } else if str_eq(backend, "file") {
            StorageBackendType::File(path.to_owned())
        } else {
            StorageBackendType::Memory
        }
    }
}

/// A comment on a proposal.
#[derive(Debug, Clone)]
pub struct Comment {
    pub id: String,
    pub proposal_id: String,
    /// Identifier of the commenting identity
    pub author: String,
    /// When the comment was made (milliseconds since the epoch)
    pub timestamp: i64,
    pub content: String,
    pub reply_to: Option<String>,
}

} // verus!
