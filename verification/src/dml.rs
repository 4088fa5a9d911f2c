//! Incoming sequenced operations and the outcome of applying one.

use vstd::prelude::*;

use crate::ids::{SequenceNumber, TableId};
use crate::names::{PartitionKey, TableName};

verus! {

/// An opaque batch of rows destined for one table.
#[derive(Debug)]
pub struct RowBatch {
    /// Encoded row data; this layer never interprets it, only forwards it.
    pub data: String,
}

impl View for RowBatch {
    type V = Seq<char>;

    open spec fn view(&self) -> Seq<char> {
        self.data@
    }
}

impl RowBatch {
    pub fn new(data: String) -> (r: Self)
        ensures
            r@ == data@,
    {
        RowBatch { data }
    }

    /// Size of the encoded batch, reported to the backpressure capability.
    pub fn byte_count(&self) -> (r: usize)
        ensures
            r == vstd::utf8::encode_utf8(self@).len() as usize,
    {
        self.data.as_str().len()
    }
}

/// One (table, rows) pair of a write operation.
#[derive(Debug)]
pub struct WriteItem {
    pub table_name: TableName,
    pub table_id: TableId,
    pub batch: RowBatch,
}

/// A sequenced write touching one or more tables.
#[derive(Debug)]
pub struct DmlWrite {
    /// The write's position in its source stream. A write is contractually
    /// guaranteed to carry one; its absence is a caller contract violation.
    pub sequence_number: Option<SequenceNumber>,
    /// The partition key derived by the router, shared by every item.
    pub partition_key: PartitionKey,
    /// The touched tables, in the order supplied by the caller.
    pub tables: Vec<WriteItem>,
}

/// A sequenced delete; deprecated and handled as an inert no-op.
#[derive(Debug)]
pub struct DmlDelete {
    pub table_name: TableName,
    pub sequence_number: Option<SequenceNumber>,
}

/// A sequenced operation arriving from the ingest pipeline.
#[derive(Debug)]
pub enum DmlOperation {
    Write(DmlWrite),
    Delete(DmlDelete),
}

impl DmlOperation {
    /// The operation's sequence number, if it carries one.
    pub open spec fn sequence_spec(&self) -> Option<SequenceNumber> {
        match self {
            DmlOperation::Write(w) => w.sequence_number,
            DmlOperation::Delete(d) => d.sequence_number,
        }
    }

    pub fn sequence(&self) -> (r: Option<SequenceNumber>)
        ensures
            r == self.sequence_spec(),
    {
        match self {
            DmlOperation::Write(w) => w.sequence_number,
            DmlOperation::Delete(d) => d.sequence_number,
        }
    }
}

/// Per-table (and aggregate) outcome of applying an operation.
#[derive(Clone, Copy, Debug, PartialEq, Eq, Structural)]
pub enum DmlApplyAction {
    /// The rows were buffered; the payload asks the pipeline to pause ingest.
    Applied(bool),
    /// The rows were already durable and were not buffered again.
    Skipped,
}

/// Failure raised while applying an operation; propagated verbatim.
#[derive(Clone, Copy, Debug, PartialEq, Eq, Structural)]
pub enum BufferError {
    /// The partition-resolution capability could not resolve a partition
    /// for the named table.
    PartitionResolution { table_id: TableId },
}

} // verus!
