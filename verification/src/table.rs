//! An in-memory model of the versioned, append-only table.
//!
//! Each successful append is one atomic transaction: all three columns grow
//! by the batch's rows and the version advances by one.  A failed append
//! leaves the table in its prior version, with no partial write visible.
//! `fail_next_append` injects a one-shot write fault, so that the driver's
//! acknowledge-after-write ordering can be exercised.

use vstd::prelude::*;
use crate::batch::Batch;
use crate::schema::{TableSchema, record_schema, record_schema_view, schema_eq, schemas_match};

verus! {

#[derive(Clone, Copy, PartialEq, Eq, Structural, Debug)]
pub enum TableError {
    /// An existing table's schema differs from the record schema.
    SchemaMismatch,
    /// The append transaction failed; the table is unchanged.
    WriteFailed,
}

/// The versioned table: pinned schema, columnar rows, current version.
pub struct TableState {
    pub schema: TableSchema,
    pub col_idx: Vec<i64>,
    pub col_name: Vec<String>,
    pub col_ts: Vec<i64>,
    pub version: u64,
    pub fail_next_append: bool,
}

impl TableState {
    /// Columns are equally long and the schema is the record schema.
    pub open spec fn wf(&self) -> bool {
        self.col_idx@.len() == self.col_name@.len() && self.col_idx@.len() == self.col_ts@.len()
            && schema_eq(self.schema@, record_schema_view())
    }

    pub open spec fn row_count(&self) -> int {
        self.col_idx@.len() as int
    }

    /// Create a fresh, empty table pinned to the record schema.
    pub fn create() -> (t: Self)
        ensures
            t.wf(),
            t.row_count() == 0,
            t.version == 0,
            !t.fail_next_append,
    {
        TableState {
            schema: record_schema(),
            col_idx: Vec::new(),
            col_name: Vec::new(),
            col_ts: Vec::new(),
            version: 0,
            fail_next_append: false,
        }
    }

    /// Open a table whose schema is already pinned: succeeds exactly when
    /// that schema equals the record schema, before any write is attempted.
    pub fn open(schema: TableSchema, version: u64) -> (r: Result<TableState, TableError>)
        ensures
            schema_eq(schema@, record_schema_view()) ==> (r matches Ok(t) && t.wf()
                && t.row_count() == 0 && t.version == version && !t.fail_next_append),
            !schema_eq(schema@, record_schema_view()) ==> r == Err::<TableState, TableError>(
                TableError::SchemaMismatch,
            ),
    {
        let pinned = record_schema();
        if !schemas_match(&schema, &pinned) {
            return Err(TableError::SchemaMismatch);
        }
        Ok(
            TableState {
                schema,
                col_idx: Vec::new(),
                col_name: Vec::new(),
                col_ts: Vec::new(),
                version,
                fail_next_append: false,
            },
        )
    }

    /// Append a batch as one atomic transaction: on success the new
    /// version, on failure the table exactly as it was.
    pub fn append(&mut self, b: &Batch) -> (r: Result<u64, TableError>)
        requires
            old(self).wf(),
            b.wf(),
            old(self).version < 0xffff_ffff_ffff_ffffu64,
        ensures
            final(self).wf(),
            final(self).schema@ == old(self).schema@,
            old(self).fail_next_append ==> (r == Err::<u64, TableError>(TableError::WriteFailed)
                && final(self).col_idx@ == old(self).col_idx@ && final(self).col_name@ == old(self).col_name@
                && final(self).col_ts@ == old(self).col_ts@ && final(self).version == old(self).version
                && !final(self).fail_next_append),
            !old(self).fail_next_append ==> (r == Ok::<u64, TableError>(
                (old(self).version + 1) as u64,
            )
                && final(self).col_idx@ == old(self).col_idx@ + b@.idx && final(self).col_name.deep_view()
                == old(self).col_name.deep_view() + b@.names && final(self).col_ts@ == old(self).col_ts@
                + b@.ts && final(self).version == old(self).version + 1 && !final(self).fail_next_append),
    {
        if self.fail_next_append {
            self.fail_next_append = false;
            return Err(TableError::WriteFailed);
        }
        let mut i: usize = 0;
        while i < b.idx.len()
            invariant
                i <= b.idx@.len(),
                self.col_idx@ == old(self).col_idx@ + b.idx@.subrange(0, i as int),
                self.col_name@ == old(self).col_name@,
                self.col_ts@ == old(self).col_ts@,
                self.schema@ == old(self).schema@,
                self.version == old(self).version,
                self.fail_next_append == false,
            decreases b.idx@.len() - i,
        {
            self.col_idx.push(b.idx[i]);
            proof {
                assert(old(self).col_idx@ + b.idx@.subrange(0, i as int + 1) =~= (old(
                    self,
                ).col_idx@ + b.idx@.subrange(0, i as int)).push(b.idx@[i as int]));
            }
            i = i + 1;
        }
        let mut j: usize = 0;
        while j < b.names.len()
            invariant
                j <= b.names@.len(),
                self.col_name@.len() == old(self).col_name@.len() + j,
                forall|k: int|
                    0 <= k < old(self).col_name@.len() ==> self.col_name@[k]@ == old(
                        self,
                    ).col_name@[k]@,
                forall|k: int|
                    0 <= k < j ==> self.col_name@[old(self).col_name@.len() + k]@ == b.names@[k]@,
                self.col_idx@ == old(self).col_idx@ + b.idx@.subrange(0, b.idx@.len() as int),
                self.col_ts@ == old(self).col_ts@,
                self.schema@ == old(self).schema@,
                self.version == old(self).version,
                self.fail_next_append == false,
            decreases b.names@.len() - j,
        {
            self.col_name.push(b.names[j].clone());
            j = j + 1;
        }
        proof {
            assert forall|k: int|
                0 <= k < self.col_name@.len() implies self.col_name.deep_view()[k] == (old(
                self,
            ).col_name.deep_view() + b.names.deep_view())[k] by {
                assert(self.col_name.deep_view()[k] == self.col_name@[k]@);
                if k < old(self).col_name@.len() {
                    assert(old(self).col_name.deep_view()[k] == old(self).col_name@[k]@);
                } else {
                    assert(b.names.deep_view()[k - old(self).col_name@.len()] == b.names@[k - old(
                        self,
                    ).col_name@.len()]@);
                }
            }
            assert(self.col_name.deep_view() =~= old(self).col_name.deep_view()
                + b.names.deep_view());
        }
        let mut k: usize = 0;
        while k < b.ts.len()
            invariant
                k <= b.ts@.len(),
                self.col_ts@ == old(self).col_ts@ + b.ts@.subrange(0, k as int),
                self.col_idx@ == old(self).col_idx@ + b.idx@.subrange(0, b.idx@.len() as int),
                self.col_name.deep_view() == old(self).col_name.deep_view()
                    + b.names.deep_view(),
                self.schema@ == old(self).schema@,
                self.version == old(self).version,
                self.fail_next_append == false,
            decreases b.ts@.len() - k,
        {
            self.col_ts.push(b.ts[k]);
            proof {
                assert(old(self).col_ts@ + b.ts@.subrange(0, k as int + 1) =~= (old(self).col_ts@
                    + b.ts@.subrange(0, k as int)).push(b.ts@[k as int]));
            }
            k = k + 1;
        }
        proof {
            assert(b.idx@.subrange(0, b.idx@.len() as int) =~= b.idx@);
            assert(b.ts@.subrange(0, b.ts@.len() as int) =~= b.ts@);
        }
        self.version = self.version + 1;
        Ok(self.version)
    }
}

} // verus!
