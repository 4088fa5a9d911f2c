//! Per-table buffering state, as far as this core tracks it.

use vstd::prelude::*;

use crate::capabilities::{LifecycleHandle, PartitionProvider};
use crate::dml::{BufferError, DmlApplyAction, RowBatch};
use crate::ids::{NamespaceId, PartitionId, SequenceNumber, ShardId, TableId};
use crate::names::{PartitionKey, TableName};
use crate::progress::ShardProgress;

verus! {

/// One table's buffering record: identity, the partition it resolved to, and
/// the durability watermarks its progress is reported from.
#[derive(Debug)]
pub struct TableData {
    pub table_id: TableId,
    pub table_name: TableName,
    pub shard_id: ShardId,
    pub namespace_id: NamespaceId,
    /// The partition the table's rows are routed to, once resolved.
    pub partition_id: Option<PartitionId>,
    /// Highest sequence number buffered into this table, if any.
    pub max_buffered: Option<SequenceNumber>,
    /// Highest sequence number already durable for this table, if any.
    pub max_persisted: Option<SequenceNumber>,
}

impl TableData {
    /// The record a freshly created table starts from.
    pub open spec fn new_spec(
        table_id: TableId,
        table_name: TableName,
        shard_id: ShardId,
        namespace_id: NamespaceId,
    ) -> TableData {
        TableData {
            table_id,
            table_name,
            shard_id,
            namespace_id,
            partition_id: None,
            max_buffered: None,
            max_persisted: None,
        }
    }

    pub fn new(
        table_id: TableId,
        table_name: TableName,
        shard_id: ShardId,
        namespace_id: NamespaceId,
    ) -> (r: Self)
        ensures
            r == Self::new_spec(table_id, table_name, shard_id, namespace_id),
    {
        TableData {
            table_id,
            table_name,
            shard_id,
            namespace_id,
            partition_id: None,
            max_buffered: None,
            max_persisted: None,
        }
    }

    pub fn table_name(&self) -> (r: &TableName)
        ensures
            r == &self.table_name,
    {
        &self.table_name
    }

    pub fn table_id(&self) -> (r: TableId)
        ensures
            r == self.table_id,
    {
        self.table_id
    }

    /// A write at `sequence_number` is already durable here and must not be
    /// buffered again.
    pub open spec fn skips(self, sequence_number: SequenceNumber) -> bool {
        match self.max_persisted {
            Some(p) => sequence_number.value <= p.value,
            None => false,
        }
    }

    /// The identity fields and durability watermark `buffer_write` never touches.
    pub open spec fn same_identity(self, other: TableData) -> bool {
        &&& self.table_id == other.table_id
        &&& self.table_name@ == other.table_name@
        &&& self.shard_id == other.shard_id
        &&& self.namespace_id == other.namespace_id
    }

    /// Buffer one row batch at `sequence_number`.
    ///
    /// Skips batches that are already durable; otherwise resolves the
    /// partition on first use, records the new buffered watermark, and asks
    /// the backpressure capability whether ingest should pause. The pause
    /// answer and any resolution failure are the capabilities' decisions and
    /// are handed through unchanged.
    pub fn buffer_write<P: PartitionProvider, L: LifecycleHandle>(
        &mut self,
        sequence_number: SequenceNumber,
        batch: &RowBatch,
        partition_key: &PartitionKey,
        partition_provider: &mut P,
        lifecycle_handle: &mut L,
    ) -> (r: Result<DmlApplyAction, BufferError>)
        ensures
            final(self).same_identity(*old(self)),
            final(self).table_name == old(self).table_name,
            final(self).max_persisted == old(self).max_persisted,
            // A batch already durable is skipped and changes nothing.
            old(self).skips(sequence_number) ==> r == Ok::<DmlApplyAction, BufferError>(
                DmlApplyAction::Skipped,
            ) && *final(self) == *old(self),
            r == Ok::<DmlApplyAction, BufferError>(DmlApplyAction::Skipped) ==> old(self).skips(
                sequence_number,
            ),
            // Failure comes only from first-use partition resolution and
            // leaves the record as it was.
            r is Err ==> *final(self) == *old(self) && old(self).partition_id is None,
            // An already-resolved table cannot fail and keeps its partition.
            old(self).partition_id is Some && !old(self).skips(sequence_number) ==> r is Ok
                && final(self).partition_id == old(self).partition_id,
            // A buffered batch raises the buffered watermark to its sequence
            // number and leaves the table resolved.
            r is Ok && !old(self).skips(sequence_number) ==> r->Ok_0 is Applied,
            r is Ok && !old(self).skips(sequence_number) ==> final(self).partition_id is Some,
            r is Ok && !old(self).skips(sequence_number) ==> final(self).max_buffered
                == crate::progress::max_sequence(old(self).max_buffered, Some(sequence_number)),
    {
        if self.is_persisted_past(sequence_number) {
            return Ok(DmlApplyAction::Skipped);
        }
        let partition_id = match self.partition_id {
            Some(p) => p,
            None => {
                match partition_provider.get_partition(
                    partition_key,
                    self.shard_id,
                    self.namespace_id,
                    self.table_id,
                    &self.table_name,
                ) {
                    Ok(p) => p,
                    Err(e) => {
                        return Err(e);
                    },
                }
            },
        };
        self.partition_id = Some(partition_id);
        self.max_buffered = match self.max_buffered {
            Some(b) => if b.value >= sequence_number.value {
                Some(b)
            } else {
                Some(sequence_number)
            },
            None => Some(sequence_number),
        };
        let should_pause = lifecycle_handle.log_write(
            partition_id,
            self.shard_id,
            sequence_number,
            batch.byte_count(),
        );
        Ok(DmlApplyAction::Applied(should_pause))
    }

    /// Exec mirror of [`Self::skips`].
    fn is_persisted_past(&self, sequence_number: SequenceNumber) -> (r: bool)
        ensures
            r == self.skips(sequence_number),
    {
        match self.max_persisted {
            Some(p) => sequence_number.value <= p.value,
            None => false,
        }
    }

    /// Record that everything up to `sequence_number` is durable for this
    /// table. Raises the persisted watermark, never lowers it.
    pub fn mark_persisted(&mut self, sequence_number: SequenceNumber)
        ensures
            final(self).same_identity(*old(self)),
            final(self).table_name == old(self).table_name,
            final(self).partition_id == old(self).partition_id,
            final(self).max_buffered == old(self).max_buffered,
            final(self).max_persisted == crate::progress::max_sequence(
                old(self).max_persisted,
                Some(sequence_number),
            ),
    {
        self.max_persisted = match self.max_persisted {
            Some(p) => if p.value >= sequence_number.value {
                Some(p)
            } else {
                Some(sequence_number)
            },
            None => Some(sequence_number),
        };
    }

    /// The progress this table contributes to the namespace's aggregate: its
    /// own watermarks, with no claim about active buffering.
    pub open spec fn progress_spec(self) -> ShardProgress {
        ShardProgress {
            max_buffered: self.max_buffered,
            max_persisted: self.max_persisted,
            actively_buffering: None,
        }
    }

    pub fn progress(&self) -> (r: ShardProgress)
        ensures
            r == self.progress_spec(),
    {
        ShardProgress {
            max_buffered: self.max_buffered,
            max_persisted: self.max_persisted,
            actively_buffering: None,
        }
    }
}

} // verus!
