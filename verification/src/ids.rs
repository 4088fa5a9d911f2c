//! Numeric identifiers used throughout the namespace buffer.

use vstd::prelude::*;

verus! {

/// Catalog identifier of a namespace.
#[derive(Clone, Copy, Debug, PartialEq, Eq, Structural, Hash)]
pub struct NamespaceId {
    pub value: i64,
}

impl NamespaceId {
    pub fn new(value: i64) -> (r: Self)
        ensures
            r.value == value,
    {
        NamespaceId { value }
    }

    pub fn get(&self) -> (r: i64)
        ensures
            r == self.value,
    {
        self.value
    }
}

/// Catalog identifier of a table.
#[derive(Clone, Copy, Debug, PartialEq, Eq, Structural, Hash)]
pub struct TableId {
    pub value: i64,
}

impl TableId {
    pub fn new(value: i64) -> (r: Self)
        ensures
            r.value == value,
    {
        TableId { value }
    }

    pub fn get(&self) -> (r: i64)
        ensures
            r == self.value,
    {
        self.value
    }
}

/// Catalog identifier of the shard a namespace's data is drawn from.
#[derive(Clone, Copy, Debug, PartialEq, Eq, Structural, Hash)]
pub struct ShardId {
    pub value: i64,
}

impl ShardId {
    pub fn new(value: i64) -> (r: Self)
        ensures
            r.value == value,
    {
        ShardId { value }
    }

    pub fn get(&self) -> (r: i64)
        ensures
            r == self.value,
    {
        self.value
    }
}

/// Catalog identifier of a partition within a table.
#[derive(Clone, Copy, Debug, PartialEq, Eq, Structural, Hash)]
pub struct PartitionId {
    pub value: i64,
}

impl PartitionId {
    pub fn new(value: i64) -> (r: Self)
        ensures
            r.value == value,
    {
        PartitionId { value }
    }

    pub fn get(&self) -> (r: i64)
        ensures
            r == self.value,
    {
        self.value
    }
}

/// Position of a write in its source stream; monotonically increasing.
#[derive(Clone, Copy, Debug, PartialEq, Eq, Structural, Hash)]
pub struct SequenceNumber {
    pub value: i64,
}

impl SequenceNumber {
    pub fn new(value: i64) -> (r: Self)
        ensures
            r.value == value,
    {
        SequenceNumber { value }
    }

    pub fn get(&self) -> (r: i64)
        ensures
            r == self.value,
    {
        self.value
    }
}

} // verus!
