//! Capability interfaces this core consumes, injected by construction.
//!
//! Each trait has exactly one deterministic double here; production
//! implementations live with the callers that own the real resources.

use vstd::prelude::*;

use crate::dml::BufferError;
use crate::ids::{NamespaceId, PartitionId, SequenceNumber, ShardId, TableId};
use crate::names::{PartitionKey, TableName};

verus! {

/// Resolves `(shard, namespace, table, partition key)` to a partition.
///
/// Shared across all tables of a namespace. The orchestrator promises nothing
/// of the result: whichever partition comes back, or whichever failure, is the
/// implementation's decision and is propagated verbatim.
pub trait PartitionProvider {
    fn get_partition(
        &mut self,
        partition_key: &PartitionKey,
        shard_id: ShardId,
        namespace_id: NamespaceId,
        table_id: TableId,
        table_name: &TableName,
    ) -> Result<PartitionId, BufferError>;
}

/// Decides, after each buffered batch, whether ingest must pause because a
/// process-wide memory bound is at risk.
pub trait LifecycleHandle {
    fn log_write(
        &mut self,
        partition_id: PartitionId,
        shard_id: ShardId,
        sequence_number: SequenceNumber,
        bytes_written: usize,
    ) -> bool;
}

/// Deterministic double of [`PartitionProvider`]: resolves every request to
/// one fixed partition, or fails every request.
pub struct FixedPartitionProvider {
    pub partition_id: PartitionId,
    pub fail: bool,
}

impl FixedPartitionProvider {
    pub fn new(partition_id: PartitionId) -> (r: Self)
        ensures
            r.partition_id == partition_id,
            !r.fail,
    {
        FixedPartitionProvider { partition_id, fail: false }
    }

    pub fn failing() -> (r: Self)
        ensures
            r.fail,
    {
        FixedPartitionProvider { partition_id: PartitionId { value: 0 }, fail: true }
    }
}

impl PartitionProvider for FixedPartitionProvider {
    fn get_partition(
        &mut self,
        partition_key: &PartitionKey,
        shard_id: ShardId,
        namespace_id: NamespaceId,
        table_id: TableId,
        table_name: &TableName,
    ) -> (r: Result<PartitionId, BufferError>)
        ensures
            *final(self) == *old(self),
            r == if old(self).fail {
                Err::<PartitionId, BufferError>(BufferError::PartitionResolution { table_id })
            } else {
                Ok::<PartitionId, BufferError>(old(self).partition_id)
            },
    {
        if self.fail {
            Err(BufferError::PartitionResolution { table_id })
        } else {
            Ok(self.partition_id)
        }
    }
}

/// Deterministic double of [`LifecycleHandle`]: always answers the same way
/// and counts how often it was asked.
pub struct FixedLifecycleHandle {
    pub pause: bool,
    pub calls: u64,
}

impl FixedLifecycleHandle {
    pub fn new(pause: bool) -> (r: Self)
        ensures
            r.pause == pause,
            r.calls == 0,
    {
        FixedLifecycleHandle { pause, calls: 0 }
    }
}

impl LifecycleHandle for FixedLifecycleHandle {
    fn log_write(
        &mut self,
        partition_id: PartitionId,
        shard_id: ShardId,
        sequence_number: SequenceNumber,
        bytes_written: usize,
    ) -> (r: bool)
        ensures
            r == old(self).pause,
            final(self).pause == old(self).pause,
            final(self).calls == if old(self).calls < u64::MAX {
                old(self).calls + 1
            } else {
                old(self).calls as int
            },
    {
        if self.calls < u64::MAX {
            self.calls = self.calls + 1;
        }
        self.pause
    }
}

} // verus!
