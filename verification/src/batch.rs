//! Columnar batches of typed records.
//!
//! A batch holds the three record-schema columns as parallel arrays, in
//! schema order, all non-nullable.  The builder accumulates a bounded run
//! of records and flushes them into one immutable batch; conversions are
//! exact, nothing is rounded or truncated.

use vstd::prelude::*;
use crate::validate::{Record, RecordView};

verus! {

/// Spec-level image of a batch: the three columns.
pub ghost struct BatchView {
    pub idx: Seq<i64>,
    pub names: Seq<Seq<char>>,
    pub ts: Seq<i64>,
}

/// An immutable columnar batch conforming to the record schema.
pub struct Batch {
    pub idx: Vec<i64>,
    pub names: Vec<String>,
    pub ts: Vec<i64>,
}

impl View for Batch {
    type V = BatchView;

    open spec fn view(&self) -> BatchView {
        BatchView { idx: self.idx@, names: self.names.deep_view(), ts: self.ts@ }
    }
}

impl Batch {
    /// The three columns are equally long.
    pub open spec fn wf(&self) -> bool {
        self@.idx.len() == self@.names.len() && self@.idx.len() == self@.ts.len()
    }

    /// Number of rows.
    pub fn len(&self) -> (n: usize)
        ensures
            n == self@.idx.len(),
    {
        self.idx.len()
    }
}

/// Flushing an empty builder yields no batch.
#[derive(Clone, Copy, PartialEq, Eq, Structural, Debug)]
pub struct EmptyBatchError;

/// Accumulates records up to a configured count threshold.
pub struct BatchBuilder {
    pub cap: usize,
    pub idx: Vec<i64>,
    pub names: Vec<String>,
    pub ts: Vec<i64>,
}

impl View for BatchBuilder {
    type V = BatchView;

    open spec fn view(&self) -> BatchView {
        BatchView { idx: self.idx@, names: self.names.deep_view(), ts: self.ts@ }
    }
}

impl BatchBuilder {
    pub open spec fn wf(&self) -> bool {
        self@.idx.len() == self@.names.len() && self@.idx.len() == self@.ts.len() && self.cap >= 1
    }

    pub fn new(cap: usize) -> (b: Self)
        requires
            cap >= 1,
        ensures
            b.wf(),
            b.cap == cap,
            b@.idx.len() == 0,
            b@.names.len() == 0,
            b@.ts.len() == 0,
    {
        BatchBuilder { cap, idx: Vec::new(), names: Vec::new(), ts: Vec::new() }
    }

    /// The configured record-count threshold is reached.
    pub fn is_full(&self) -> (r: bool)
        ensures
            r == (self@.idx.len() >= self.cap),
    {
        self.idx.len() >= self.cap
    }

    /// Append one record's fields to the pending columns, exactly.
    pub fn add(&mut self, r: Record)
        requires
            old(self).wf(),
        ensures
            final(self).wf(),
            final(self).cap == old(self).cap,
            final(self)@.idx == old(self)@.idx.push(r@.idx),
            final(self)@.names == old(self)@.names.push(r@.name),
            final(self)@.ts == old(self)@.ts.push(r@.timestamp_micros),
    {
        self.idx.push(r.idx);
        self.names.push(r.name);
        self.ts.push(r.timestamp_micros);
        proof {
            assert(self.names.deep_view() =~= old(self).names.deep_view().push(r.name@));
        }
    }

    /// Flush the accumulated records into one immutable batch and reset;
    /// an empty builder yields `EmptyBatchError` and stays as it is.
    pub fn build(&mut self) -> (r: Result<Batch, EmptyBatchError>)
        requires
            old(self).wf(),
        ensures
            final(self).wf(),
            final(self).cap == old(self).cap,
            old(self)@.idx.len() == 0 ==> r == Err::<Batch, EmptyBatchError>(EmptyBatchError)
                && final(self)@ == old(self)@,
            old(self)@.idx.len() > 0 ==> (r matches Ok(b) && b@ == old(self)@ && b.wf()
                && final(self)@.idx.len() == 0 && final(self)@.names.len() == 0 && final(self)@.ts.len() == 0),
    {
        if self.idx.len() == 0 {
            return Err(EmptyBatchError);
        }
        let mut idx: Vec<i64> = Vec::new();
        let mut names: Vec<String> = Vec::new();
        let mut ts: Vec<i64> = Vec::new();
        core::mem::swap(&mut idx, &mut self.idx);
        core::mem::swap(&mut names, &mut self.names);
        core::mem::swap(&mut ts, &mut self.ts);
        Ok(Batch { idx, names, ts })
    }
}

} // verus!
