//! The snapshot surface the core consumes: a version, a table root, a
//! schema, partition columns, and whether the table's configuration admits
//! writes. Snapshots are produced externally and never mutated here.
use vstd::prelude::*;

verus! {

use crate::schema::StructType;

/// A read snapshot of a table at one version.
#[derive(Debug)]
pub struct Snapshot {
    /// The table version this snapshot reads.
    pub version: u64,
    /// The table root location, as a URL or path string without a trailing
    /// slash.
    pub table_root: String,
    /// The table's logical schema.
    pub schema: StructType,
    /// The names of the partition columns.
    pub partition_columns: Vec<String>,
    /// Whether the table's configuration supports writes from this client:
    /// no unknown reader or writer features and a compatible protocol.
    pub supports_writes: bool,
}

impl Snapshot {
    pub fn version(&self) -> (r: u64)
        ensures
            r == self.version,
    {
        self.version
    }

    pub fn table_root(&self) -> (r: &String)
        ensures
            r == &self.table_root,
    {
        &self.table_root
    }

    pub fn schema(&self) -> (r: &StructType)
        ensures
            r == &self.schema,
    {
        &self.schema
    }

    /// Fails unless the snapshot's configuration supports writes.
    pub fn ensure_write_supported(&self) -> (r: Result<(), crate::error::Error>)
        ensures
            r is Ok <==> self.supports_writes,
    {
        if self.supports_writes {
            Ok(())
        } else {
            Err(crate::error::Error::generic("table does not support writes"))
        }
    }
}

} // verus!
