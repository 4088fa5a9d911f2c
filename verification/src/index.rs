//! The dual-keyed table registry: one arena of records, reachable by table
//! name and by table id, kept consistent as one unit.

use vstd::prelude::*;

use crate::capabilities::{LifecycleHandle, PartitionProvider};
use crate::dml::{BufferError, DmlApplyAction, RowBatch};
use crate::ids::{SequenceNumber, TableId};
use crate::names::{PartitionKey, TableName};
use crate::table::TableData;

verus! {

/// No two records share a name or an id: the keyed views are consistent, and
/// a record found under its name is the record found under its id.
pub open spec fn seq_wf(tables: Seq<TableData>) -> bool {
    forall|i: int, j: int|
        0 <= i < tables.len() && 0 <= j < tables.len() && i != j ==> tables[i].table_name@
            != tables[j].table_name@ && tables[i].table_id != tables[j].table_id
}

pub open spec fn seq_has_name(tables: Seq<TableData>, name: Seq<char>) -> bool {
    exists|i: int| 0 <= i < tables.len() && tables[i].table_name@ == name
}

pub open spec fn seq_slot_of_name(tables: Seq<TableData>, name: Seq<char>) -> int {
    choose|i: int| 0 <= i < tables.len() && tables[i].table_name@ == name
}

pub open spec fn seq_has_id(tables: Seq<TableData>, id: TableId) -> bool {
    exists|i: int| 0 <= i < tables.len() && tables[i].table_id == id
}

pub open spec fn seq_slot_of_id(tables: Seq<TableData>, id: TableId) -> int {
    choose|i: int| 0 <= i < tables.len() && tables[i].table_id == id
}

/// A double-referenced registry where a [`TableData`] can be looked up by
/// name or by id. Records live in one arena; a lookup answers with the slot of
/// the record, so the two keyed views provably resolve to the identical
/// instance.
#[derive(Debug)]
pub struct DoubleRef {
    tables: Vec<TableData>,
}

impl View for DoubleRef {
    type V = Seq<TableData>;

    closed spec fn view(&self) -> Seq<TableData> {
        self.tables@
    }
}

impl DoubleRef {
    /// Both keyed views are consistent as one unit.
    pub open spec fn wf(self) -> bool {
        seq_wf(self@)
    }

    pub open spec fn has_name(self, name: Seq<char>) -> bool {
        seq_has_name(self@, name)
    }

    pub open spec fn has_id(self, id: TableId) -> bool {
        seq_has_id(self@, id)
    }

    pub fn new() -> (r: Self)
        ensures
            r@ == Seq::<TableData>::empty(),
            r.wf(),
    {
        DoubleRef { tables: Vec::new() }
    }

    pub fn len(&self) -> (r: usize)
        ensures
            r == self@.len(),
    {
        self.tables.len()
    }

    /// Look up the record stored under `name`; pure.
    pub fn by_name(&self, name: &TableName) -> (r: Option<usize>)
        ensures
            match r {
                Some(i) => i < self@.len() && self@[i as int].table_name@ == name@,
                None => !self.has_name(name@),
            },
    {
        let mut i: usize = 0;
        let n = self.tables.len();
        while i < n
            invariant
                i <= n,
                n == self@.len(),
                forall|k: int| 0 <= k < i ==> self@[k].table_name@ != name@,
            decreases n - i,
        {
            if self.tables[i].table_name == *name {
                return Some(i);
            }
            i = i + 1;
        }
        None
    }

    /// Look up the record stored under `id`; pure.
    pub fn by_id(&self, id: TableId) -> (r: Option<usize>)
        ensures
            match r {
                Some(i) => i < self@.len() && self@[i as int].table_id == id,
                None => !self.has_id(id),
            },
    {
        let mut i: usize = 0;
        let n = self.tables.len();
        while i < n
            invariant
                i <= n,
                n == self@.len(),
                forall|k: int| 0 <= k < i ==> self@[k].table_id != id,
            decreases n - i,
        {
            if self.tables[i].table_id.value == id.value {
                return Some(i);
            }
            i = i + 1;
        }
        None
    }

    /// Record a new table under both its name and its id; the caller must
    /// have already ensured exclusivity.
    pub fn insert(&mut self, table: TableData) -> (i: usize)
        requires
            old(self).wf(),
            !old(self).has_name(table.table_name@),
            !old(self).has_id(table.table_id),
        ensures
            final(self)@ == old(self)@.push(table),
            i == old(self)@.len(),
            final(self).wf(),
    {
        let i = self.tables.len();
        self.tables.push(table);
        proof {
            assert forall|a: int, b: int|
                0 <= a < self@.len() && 0 <= b < self@.len() && a != b implies self@[
                a
            ].table_name@ != self@[b].table_name@ && self@[a].table_id != self@[b].table_id by {
                if a < i && b < i {
                    assert(old(self)@[a].table_name@ != old(self)@[b].table_name@);
                } else if a == i {
                    assert(self@[b] == old(self)@[b]);
                } else if b == i {
                    assert(self@[a] == old(self)@[a]);
                }
            }
        }
        i
    }

    /// Read the record in slot `i`.
    pub fn get(&self, i: usize) -> (r: &TableData)
        requires
            i < self@.len(),
        ensures
            *r == self@[i as int],
    {
        &self.tables[i]
    }

    /// Buffer one row batch into the record in slot `i`; see
    /// [`TableData::buffer_write`] for what the outcome means.
    pub fn buffer_write_at<P: PartitionProvider, L: LifecycleHandle>(
        &mut self,
        i: usize,
        sequence_number: SequenceNumber,
        batch: &RowBatch,
        partition_key: &PartitionKey,
        partition_provider: &mut P,
        lifecycle_handle: &mut L,
    ) -> (r: Result<DmlApplyAction, BufferError>)
        requires
            old(self).wf(),
            i < old(self)@.len(),
        ensures
            final(self).wf(),
            final(self)@.len() == old(self)@.len(),
            forall|j: int| 0 <= j < old(self)@.len() && j != i ==> final(self)@[j] == old(self)@[j],
            final(self)@[i as int].same_identity(old(self)@[i as int]),
            final(self)@[i as int].table_name == old(self)@[i as int].table_name,
            final(self)@[i as int].max_persisted == old(self)@[i as int].max_persisted,
            old(self)@[i as int].skips(sequence_number) ==> r == Ok::<
                DmlApplyAction,
                BufferError,
            >(DmlApplyAction::Skipped) && final(self)@[i as int] == old(self)@[i as int],
            r == Ok::<DmlApplyAction, BufferError>(DmlApplyAction::Skipped) ==> old(self)@[
                i as int
            ].skips(sequence_number),
            r is Err ==> final(self)@[i as int] == old(self)@[i as int] && old(self)@[
                i as int
            ].partition_id is None,
            old(self)@[i as int].partition_id is Some && !old(self)@[i as int].skips(
                sequence_number,
            ) ==> r is Ok && final(self)@[i as int].partition_id == old(self)@[
                i as int
            ].partition_id,
            r is Ok && !old(self)@[i as int].skips(sequence_number) ==> r->Ok_0 is Applied,
            r is Ok && !old(self)@[i as int].skips(sequence_number) ==> final(self)@[
                i as int
            ].partition_id is Some,
            r is Ok && !old(self)@[i as int].skips(sequence_number) ==> final(self)@[
                i as int
            ].max_buffered == crate::progress::max_sequence(
                old(self)@[i as int].max_buffered,
                Some(sequence_number),
            ),
    {
        let t = &mut self.tables[i];
        let r = t.buffer_write(
            sequence_number,
            batch,
            partition_key,
            partition_provider,
            lifecycle_handle,
        );
        proof {
            assert forall|a: int, b: int|
                0 <= a < self@.len() && 0 <= b < self@.len() && a != b implies self@[
                a
            ].table_name@ != self@[b].table_name@ && self@[a].table_id != self@[b].table_id by {
                assert(old(self)@[a].table_name@ != old(self)@[b].table_name@);
                assert(old(self)@[a].table_id != old(self)@[b].table_id);
            }
        }
        r
    }

    /// Raise the persisted watermark of the record in slot `i`.
    pub fn mark_persisted_at(&mut self, i: usize, sequence_number: SequenceNumber)
        requires
            old(self).wf(),
            i < old(self)@.len(),
        ensures
            final(self).wf(),
            final(self)@.len() == old(self)@.len(),
            forall|j: int| 0 <= j < old(self)@.len() && j != i ==> final(self)@[j] == old(self)@[j],
            final(self)@[i as int].same_identity(old(self)@[i as int]),
            final(self)@[i as int].table_name == old(self)@[i as int].table_name,
            final(self)@[i as int].partition_id == old(self)@[i as int].partition_id,
            final(self)@[i as int].max_buffered == old(self)@[i as int].max_buffered,
            final(self)@[i as int].max_persisted == crate::progress::max_sequence(
                old(self)@[i as int].max_persisted,
                Some(sequence_number),
            ),
    {
        let t = &mut self.tables[i];
        t.mark_persisted(sequence_number);
        proof {
            assert forall|a: int, b: int|
                0 <= a < self@.len() && 0 <= b < self@.len() && a != b implies self@[
                a
            ].table_name@ != self@[b].table_name@ && self@[a].table_id != self@[b].table_id by {
                assert(old(self)@[a].table_name@ != old(self)@[b].table_name@);
                assert(old(self)@[a].table_id != old(self)@[b].table_id);
            }
        }
    }
}

/// Law: for any table in a consistent registry, the lookup by its name and
/// the lookup by its id both succeed and resolve to the identical record.
pub proof fn lemma_dual_lookup_agree(tables: Seq<TableData>, i: int)
    requires
        seq_wf(tables),
        0 <= i < tables.len(),
    ensures
        seq_has_name(tables, tables[i].table_name@),
        seq_has_id(tables, tables[i].table_id),
        seq_slot_of_name(tables, tables[i].table_name@) == i,
        seq_slot_of_id(tables, tables[i].table_id) == i,
{
    assert(seq_has_name(tables, tables[i].table_name@));
    assert(seq_has_id(tables, tables[i].table_id));
    let j = seq_slot_of_name(tables, tables[i].table_name@);
    assert(0 <= j < tables.len() && tables[j].table_name@ == tables[i].table_name@);
    assert(j == i);
    let k = seq_slot_of_id(tables, tables[i].table_id);
    assert(0 <= k < tables.len() && tables[k].table_id == tables[i].table_id);
    assert(k == i);
}

} // verus!
