//! The namespace orchestrator: applies sequenced operations across tables,
//! answers lookups, and computes aggregate progress.

use vstd::prelude::*;

use crate::capabilities::{LifecycleHandle, PartitionProvider};
use crate::dml::{BufferError, DmlApplyAction, DmlOperation, WriteItem};
use crate::ids::{NamespaceId, SequenceNumber, ShardId, TableId};
use crate::index::{
    lemma_dual_lookup_agree, seq_has_id, seq_has_name, seq_slot_of_id, seq_slot_of_name, seq_wf,
    DoubleRef,
};
use crate::names::{NamespaceName, TableName};
use crate::progress::{max_sequence, ShardProgress};
use crate::sequence::SequenceMarker;
use crate::table::TableData;

verus! {

/// The fold of per-item outcomes into one outcome for the whole operation:
/// skipped only when every item was skipped; otherwise applied, requesting a
/// pause when any item requested one.
pub open spec fn combine_actions(actions: Seq<DmlApplyAction>) -> DmlApplyAction {
    if forall|k: int| 0 <= k < actions.len() ==> actions[k] is Skipped {
        DmlApplyAction::Skipped
    } else {
        DmlApplyAction::Applied(
            exists|k: int| 0 <= k < actions.len() && actions[k] == DmlApplyAction::Applied(true),
        )
    }
}

/// Law: one item requesting a pause forces the whole operation to request a
/// pause, however healthy its siblings are.
pub proof fn lemma_pause_request_dominates(actions: Seq<DmlApplyAction>, k: int)
    requires
        0 <= k < actions.len(),
        actions[k] == DmlApplyAction::Applied(true),
    ensures
        combine_actions(actions) == DmlApplyAction::Applied(true),
{
}

/// Law: an operation whose items were all skipped is itself skipped.
pub proof fn lemma_all_skipped_is_skipped(actions: Seq<DmlApplyAction>)
    requires
        forall|k: int| 0 <= k < actions.len() ==> actions[k] is Skipped,
    ensures
        combine_actions(actions) == DmlApplyAction::Skipped,
{
}

/// Law: an applied item keeps the whole operation from reporting skipped.
pub proof fn lemma_applied_is_not_skipped(actions: Seq<DmlApplyAction>, k: int)
    requires
        0 <= k < actions.len(),
        actions[k] is Applied,
    ensures
        combine_actions(actions) is Applied,
{
}

/// The registry after a get-or-create for `table`: unchanged when a record
/// already holds the table's name, extended by exactly one record otherwise.
pub open spec fn get_or_create_tables(tables: Seq<TableData>, table: TableData) -> Seq<TableData> {
    if seq_has_name(tables, table.table_name@) {
        tables
    } else {
        tables.push(table)
    }
}

/// Law: get-or-create is idempotent. However many calls race on one new table
/// name, the registry gains exactly one record — and with it exactly one
/// counter increment — and every later call resolves to that record.
pub proof fn lemma_get_or_create_idempotent(tables: Seq<TableData>, table: TableData)
    ensures
        get_or_create_tables(get_or_create_tables(tables, table), table) == get_or_create_tables(
            tables,
            table,
        ),
        seq_has_name(tables, table.table_name@) ==> get_or_create_tables(tables, table).len()
            == tables.len(),
        !seq_has_name(tables, table.table_name@) ==> get_or_create_tables(tables, table).len()
            == tables.len() + 1,
        seq_has_name(get_or_create_tables(tables, table), table.table_name@),
{
    if !seq_has_name(tables, table.table_name@) {
        let pushed = tables.push(table);
        assert(pushed[tables.len() as int] == table);
        assert(seq_has_name(pushed, table.table_name@));
    }
}

/// The item's write is already durable in its table, so applying it again
/// would be skipped.
pub open spec fn item_skipped(
    tables: Seq<TableData>,
    item: WriteItem,
    sequence_number: SequenceNumber,
) -> bool {
    exists|i: int|
        0 <= i < tables.len() && tables[i].table_name@ == item.table_name@ && tables[i].skips(
            sequence_number,
        )
}

/// The item's table is already registered and needs nothing from the
/// partition-resolution capability: its partition is resolved, or the item
/// would be skipped outright.
pub open spec fn item_settled(
    tables: Seq<TableData>,
    item: WriteItem,
    sequence_number: SequenceNumber,
) -> bool {
    exists|i: int|
        0 <= i < tables.len() && tables[i].table_name@ == item.table_name@ && (
        tables[i].partition_id is Some || tables[i].skips(sequence_number))
}

/// The buffered watermark the table named `name` holds before an operation:
/// its record's watermark, or nothing for a table not yet known.
pub open spec fn initial_buffered(tables: Seq<TableData>, name: Seq<char>) -> Option<
    SequenceNumber,
> {
    if seq_has_name(tables, name) {
        tables[seq_slot_of_name(tables, name)].max_buffered
    } else {
        None
    }
}

/// The buffered watermark the record in slot `j` held before an operation;
/// nothing for a record the operation itself created.
pub open spec fn slot_initial_buffered(orig: Seq<TableData>, j: int) -> Option<SequenceNumber> {
    if 0 <= j < orig.len() {
        orig[j].max_buffered
    } else {
        None
    }
}

/// The write's items can be folded into the registry without breaking the
/// dual-keyed invariant: an unknown table name never carries an id the
/// registry already holds, and items naming different tables carry different
/// ids. The catalog that assigns ids guarantees this; it is a caller contract.
pub open spec fn write_consistent(tables: Seq<TableData>, items: Seq<WriteItem>) -> bool {
    &&& forall|k: int|
        0 <= k < items.len() && !seq_has_name(tables, items[k].table_name@) ==> !seq_has_id(
            tables,
            items[k].table_id,
        )
    &&& forall|k: int, l: int|
        0 <= k < items.len() && 0 <= l < items.len() && items[k].table_name@
            != items[l].table_name@ ==> items[k].table_id != items[l].table_id
}

/// The left fold of the first `k` tables' progress onto `init`.
pub open spec fn fold_progress(tables: Seq<TableData>, init: ShardProgress, k: int) -> ShardProgress
    decreases k,
{
    if k <= 0 {
        init
    } else {
        fold_progress(tables, init, k - 1).combine_spec(tables[k - 1].progress_spec())
    }
}

/// Law: the fold of per-table progress never touches the actively-buffering
/// overlay — tables claim nothing about active buffering, so a progress query
/// reports exactly the in-flight marker it started from, however many tables
/// have already recorded the write as durable.
pub proof fn lemma_fold_progress_actively(tables: Seq<TableData>, init: ShardProgress, k: int)
    requires
        0 <= k <= tables.len(),
    ensures
        fold_progress(tables, init, k).actively_buffering == init.actively_buffering,
    decreases k,
{
    if k > 0 {
        lemma_fold_progress_actively(tables, init, k - 1);
    }
}

/// Data of a namespace that belongs to a given shard: its identity, the
/// dual-keyed table registry, the "known tables" counter, the shared
/// partition-resolution capability, and the in-flight sequence marker.
#[derive(Debug)]
pub struct NamespaceData<P: PartitionProvider> {
    namespace_id: NamespaceId,
    namespace_name: NamespaceName,
    /// The shard this namespace's data is drawn from.
    shard_id: ShardId,
    tables: DoubleRef,
    /// Monotonically increasing count of tables known to this namespace,
    /// incremented by exactly one per successful table creation.
    table_count: u64,
    /// Resolver of `(shard, namespace, table, partition key)` to a partition,
    /// shared across all tables in the namespace.
    partition_provider: P,
    /// The sequence number being actively written, if any.
    buffering_sequence_number: SequenceMarker,
}

impl<P: PartitionProvider> NamespaceData<P> {
    pub closed spec fn namespace_id_spec(self) -> NamespaceId {
        self.namespace_id
    }

    pub closed spec fn namespace_name_spec(self) -> Seq<char> {
        self.namespace_name@
    }

    pub closed spec fn shard_id_spec(self) -> ShardId {
        self.shard_id
    }

    pub closed spec fn tables_view(self) -> Seq<TableData> {
        self.tables@
    }

    pub closed spec fn table_count_spec(self) -> u64 {
        self.table_count
    }

    pub closed spec fn marker_spec(self) -> Option<SequenceNumber> {
        self.buffering_sequence_number.value_spec()
    }

    /// The registry is consistent and the counter counts its records.
    pub open spec fn wf(self) -> bool {
        &&& seq_wf(self.tables_view())
        &&& self.table_count_spec() == self.tables_view().len()
    }

    /// The identity this namespace was constructed with.
    pub open spec fn same_config(self, other: Self) -> bool {
        &&& self.namespace_id_spec() == other.namespace_id_spec()
        &&& self.namespace_name_spec() == other.namespace_name_spec()
        &&& self.shard_id_spec() == other.shard_id_spec()
    }

    /// The record a table created here starts from.
    pub open spec fn created_table(self, table_name: TableName, table_id: TableId) -> TableData {
        TableData::new_spec(table_id, table_name, self.shard_id_spec(), self.namespace_id_spec())
    }

    pub fn new(
        namespace_id: NamespaceId,
        namespace_name: NamespaceName,
        shard_id: ShardId,
        partition_provider: P,
    ) -> (r: Self)
        ensures
            r.wf(),
            r.namespace_id_spec() == namespace_id,
            r.namespace_name_spec() == namespace_name@,
            r.shard_id_spec() == shard_id,
            r.tables_view() == Seq::<TableData>::empty(),
            r.table_count_spec() == 0,
            r.marker_spec() is None,
    {
        NamespaceData {
            namespace_id,
            namespace_name,
            shard_id,
            tables: DoubleRef::new(),
            table_count: 0,
            partition_provider,
            buffering_sequence_number: SequenceMarker::new(),
        }
    }

    pub fn namespace_id(&self) -> (r: NamespaceId)
        ensures
            r == self.namespace_id_spec(),
    {
        self.namespace_id
    }

    pub fn namespace_name(&self) -> (r: &NamespaceName)
        ensures
            r@ == self.namespace_name_spec(),
    {
        &self.namespace_name
    }

    pub fn shard_id(&self) -> (r: ShardId)
        ensures
            r == self.shard_id_spec(),
    {
        self.shard_id
    }

    pub fn table_count(&self) -> (r: u64)
        ensures
            r == self.table_count_spec(),
    {
        self.table_count
    }

    /// Return the record stored under `table_name`, if it exists; pure.
    pub fn table_data(&self, table_name: &TableName) -> (r: Option<&TableData>)
        requires
            self.wf(),
        ensures
            match r {
                Some(t) => seq_has_name(self.tables_view(), table_name@) && *t
                    == self.tables_view()[seq_slot_of_name(self.tables_view(), table_name@)]
                    && t.table_name@ == table_name@,
                None => !seq_has_name(self.tables_view(), table_name@),
            },
    {
        match self.tables.by_name(table_name) {
            Some(i) => {
                proof {
                    lemma_dual_lookup_agree(self.tables_view(), i as int);
                }
                Some(self.tables.get(i))
            },
            None => None,
        }
    }

    /// Return the record stored under `table_id`, if it exists; pure.
    pub fn table_id(&self, table_id: TableId) -> (r: Option<&TableData>)
        requires
            self.wf(),
        ensures
            match r {
                Some(t) => seq_has_id(self.tables_view(), table_id) && *t == self.tables_view()[
                    seq_slot_of_id(self.tables_view(), table_id)
                ] && t.table_id == table_id,
                None => !seq_has_id(self.tables_view(), table_id),
            },
    {
        match self.tables.by_id(table_id) {
            Some(i) => {
                proof {
                    lemma_dual_lookup_agree(self.tables_view(), i as int);
                }
                Some(self.tables.get(i))
            },
            None => None,
        }
    }

    /// Get-or-create: return the slot of the table named `table_name`,
    /// creating and counting its record exactly once if it is new.
    fn insert_table(&mut self, table_name: TableName, table_id: TableId) -> (r: usize)
        requires
            old(self).wf(),
            !seq_has_name(old(self).tables_view(), table_name@) ==> !seq_has_id(
                old(self).tables_view(),
                table_id,
            ),
        ensures
            final(self).wf(),
            final(self).same_config(*old(self)),
            final(self).marker_spec() == old(self).marker_spec(),
            final(self).tables_view() == get_or_create_tables(
                old(self).tables_view(),
                old(self).created_table(table_name, table_id),
            ),
            r < final(self).tables_view().len(),
            final(self).tables_view()[r as int].table_name@ == table_name@,
            seq_has_name(old(self).tables_view(), table_name@) ==> final(self).table_count_spec()
                == old(self).table_count_spec(),
            !seq_has_name(old(self).tables_view(), table_name@) ==> final(self).table_count_spec()
                == old(self).table_count_spec() + 1 && r == old(self).tables_view().len() && final(self).tables_view()[r as int] == old(self).created_table(table_name, table_id),
    {
        match self.tables.by_name(&table_name) {
            Some(i) => i,
            None => {
                let table = TableData::new(
                    table_id,
                    table_name,
                    self.shard_id,
                    self.namespace_id,
                );
                let i = self.tables.insert(table);
                let count = self.tables.len();
                self.table_count = count as u64;
                i
            },
        }
    }

    /// Buffer one operation, fanning a write out across the tables it
    /// touches in the order supplied and folding the per-table outcomes into
    /// one; a deprecated delete is an inert, successful no-op.
    ///
    /// The in-flight marker carries the operation's sequence number for
    /// exactly the duration of this call, on the error path as on the success
    /// path, so concurrent progress queries report the write as partially
    /// durable rather than inferring completeness from per-table watermarks.
    ///
    /// On a per-item failure the remaining items are not processed and items
    /// already processed stay applied; there is no rollback across tables.
    pub fn buffer_operation<L: LifecycleHandle>(
        &mut self,
        dml_operation: DmlOperation,
        lifecycle_handle: &mut L,
    ) -> (r: Result<DmlApplyAction, BufferError>)
        requires
            old(self).wf(),
            dml_operation.sequence_spec() is Some,
            dml_operation matches DmlOperation::Write(w) ==> write_consistent(
                old(self).tables_view(),
                w.tables@,
            ),
        ensures
            final(self).wf(),
            final(self).same_config(*old(self)),
            // The in-flight marker is cleared on every exit path.
            final(self).marker_spec() is None,
            // A deprecated delete mutates nothing and reports applied without
            // a pause request.
            dml_operation is Delete ==> r == Ok::<DmlApplyAction, BufferError>(
                DmlApplyAction::Applied(false),
            ) && final(self).tables_view() == old(self).tables_view() && final(self).table_count_spec() == old(self).table_count_spec(),
            // Records are only ever added; existing records keep their slot,
            // identity and durability watermark.
            final(self).tables_view().len() >= old(self).tables_view().len(),
            forall|j: int|
                0 <= j < old(self).tables_view().len() ==> #[trigger] final(self).tables_view()[
                    j
                ].table_name@ == old(self).tables_view()[j].table_name@ && final(self).tables_view()[j].table_id == old(self).tables_view()[j].table_id && final(self).tables_view()[j].max_persisted == old(self).tables_view()[j].max_persisted,
            // A record that already held the operation's sequence number
            // durably is never touched.
            forall|j: int|
                0 <= j < old(self).tables_view().len() && old(self).tables_view()[j].skips(
                    dml_operation.sequence_spec().unwrap(),
                ) ==> #[trigger] final(self).tables_view()[j] == old(self).tables_view()[j],
            // New records hold tables this write names that were unknown before.
            forall|j: int|
                old(self).tables_view().len() <= j < final(self).tables_view().len()
                    ==> !seq_has_name(
                    old(self).tables_view(),
                    #[trigger] final(self).tables_view()[j].table_name@,
                ) && (dml_operation matches DmlOperation::Write(w) && exists|k: int|
                    0 <= k < w.tables@.len() && final(self).tables_view()[j].table_name@
                        == w.tables@[k].table_name@ && final(self).tables_view()[j].table_id
                        == w.tables@[k].table_id),
            // A successfully applied write leaves every touched table
            // registered under its name.
            dml_operation matches DmlOperation::Write(w) ==> (r is Ok ==> forall|k: int|
                0 <= k < w.tables@.len() ==> seq_has_name(
                    final(self).tables_view(),
                    #[trigger] w.tables@[k].table_name@,
                )),
            // Success is owed when no item needs the resolution capability.
            dml_operation matches DmlOperation::Write(w) && (forall|k: int|
                0 <= k < w.tables@.len() ==> item_settled(
                    old(self).tables_view(),
                    #[trigger] w.tables@[k],
                    dml_operation.sequence_spec().unwrap(),
                )) ==> r is Ok,
            // A buffered item raises its table's buffered watermark to the
            // write's sequence number, exactly once however many items touch
            // the table.
            dml_operation matches DmlOperation::Write(w) ==> (r is Ok ==> forall|k: int|
                0 <= k < w.tables@.len() && !item_skipped(
                    old(self).tables_view(),
                    #[trigger] w.tables@[k],
                    dml_operation.sequence_spec().unwrap(),
                ) ==> exists|j: int|
                    0 <= j < final(self).tables_view().len() && final(self).tables_view()[
                        j
                    ].table_name@ == w.tables@[k].table_name@ && final(self).tables_view()[
                        j
                    ].max_buffered == max_sequence(
                        initial_buffered(old(self).tables_view(), w.tables@[k].table_name@),
                        Some(dml_operation.sequence_spec().unwrap()),
                    )),
            // The outcome of a write is the fold of its per-item outcomes,
            // and an item was skipped exactly when its table already held the
            // write durably.
            dml_operation matches DmlOperation::Write(w) ==> (r is Ok ==> exists|
                actions: Seq<DmlApplyAction>,
            |
                {
                    &&& actions.len() == w.tables@.len()
                    &&& forall|k: int|
                        0 <= k < actions.len() ==> ((#[trigger] actions[k]) is Skipped
                            <==> item_skipped(
                            old(self).tables_view(),
                            w.tables@[k],
                            dml_operation.sequence_spec().unwrap(),
                        ))
                    &&& r == Ok::<DmlApplyAction, BufferError>(combine_actions(actions))
                }),
    {
        let sequence_number = dml_operation.sequence().unwrap();
        self.buffering_sequence_number.begin(sequence_number);
        let result = match dml_operation {
            DmlOperation::Write(write) => {
                self.buffer_write(sequence_number, write, lifecycle_handle)
            },
            DmlOperation::Delete(_) => {
                // Deprecated delete support: discarded as a successful no-op
                // so the pipeline does not stall on an operation kind this
                // core can no longer execute.
                Ok(DmlApplyAction::Applied(false))
            },
        };
        self.buffering_sequence_number.end(sequence_number);
        result
    }

    /// The write arm of [`Self::buffer_operation`]; leaves the marker alone.
    fn buffer_write<L: LifecycleHandle>(
        &mut self,
        sequence_number: SequenceNumber,
        write: crate::dml::DmlWrite,
        lifecycle_handle: &mut L,
    ) -> (r: Result<DmlApplyAction, BufferError>)
        requires
            old(self).wf(),
            write_consistent(old(self).tables_view(), write.tables@),
        ensures
            final(self).wf(),
            final(self).same_config(*old(self)),
            final(self).marker_spec() == old(self).marker_spec(),
            final(self).tables_view().len() >= old(self).tables_view().len(),
            forall|j: int|
                0 <= j < old(self).tables_view().len() ==> #[trigger] final(self).tables_view()[
                    j
                ].table_name@ == old(self).tables_view()[j].table_name@ && final(self).tables_view()[j].table_id == old(self).tables_view()[j].table_id && final(self).tables_view()[j].max_persisted == old(self).tables_view()[j].max_persisted,
            forall|j: int|
                0 <= j < old(self).tables_view().len() && old(self).tables_view()[j].skips(
                    sequence_number,
                ) ==> #[trigger] final(self).tables_view()[j] == old(self).tables_view()[j],
            forall|j: int|
                old(self).tables_view().len() <= j < final(self).tables_view().len()
                    ==> !seq_has_name(
                    old(self).tables_view(),
                    #[trigger] final(self).tables_view()[j].table_name@,
                ) && (exists|k: int|
                    0 <= k < write.tables@.len() && final(self).tables_view()[j].table_name@
                        == write.tables@[k].table_name@ && final(self).tables_view()[j].table_id
                        == write.tables@[k].table_id),
            r is Ok ==> forall|k: int|
                0 <= k < write.tables@.len() ==> seq_has_name(
                    final(self).tables_view(),
                    #[trigger] write.tables@[k].table_name@,
                ),
            (forall|k: int|
                0 <= k < write.tables@.len() ==> item_settled(
                    old(self).tables_view(),
                    #[trigger] write.tables@[k],
                    sequence_number,
                )) ==> r is Ok,
            r is Ok ==> forall|k: int|
                0 <= k < write.tables@.len() && !item_skipped(
                    old(self).tables_view(),
                    #[trigger] write.tables@[k],
                    sequence_number,
                ) ==> exists|j: int|
                    0 <= j < final(self).tables_view().len() && final(self).tables_view()[
                        j
                    ].table_name@ == write.tables@[k].table_name@ && final(self).tables_view()[
                        j
                    ].max_buffered == max_sequence(
                        initial_buffered(old(self).tables_view(), write.tables@[k].table_name@),
                        Some(sequence_number),
                    ),
            r is Ok ==> exists|actions: Seq<DmlApplyAction>|
                {
                    &&& actions.len() == write.tables@.len()
                    &&& forall|k: int|
                        0 <= k < actions.len() ==> ((#[trigger] actions[k]) is Skipped
                            <==> item_skipped(
                            old(self).tables_view(),
                            write.tables@[k],
                            sequence_number,
                        ))
                    &&& r == Ok::<DmlApplyAction, BufferError>(combine_actions(actions))
                },
    {
        let crate::dml::DmlWrite { sequence_number: _, partition_key, tables: items } = write;
        let mut pause_writes = false;
        let mut all_skipped = true;
        let ghost mut actions: Seq<DmlApplyAction> = Seq::empty();
        let mut idx: usize = 0;
        let n = items.len();
        while idx < n
            invariant
                idx <= n,
                n == items@.len(),
                items@ == write.tables@,
                old(self).wf(),
                self.wf(),
                self.same_config(*old(self)),
                self.marker_spec() == old(self).marker_spec(),
                write_consistent(old(self).tables_view(), items@),
                self.tables_view().len() >= old(self).tables_view().len(),
                forall|j: int|
                    0 <= j < old(self).tables_view().len() ==> #[trigger] self.tables_view()[
                        j
                    ].table_name@ == old(self).tables_view()[j].table_name@ && self.tables_view()[
                        j
                    ].table_id == old(self).tables_view()[j].table_id && self.tables_view()[
                        j
                    ].max_persisted == old(self).tables_view()[j].max_persisted && (old(self).tables_view()[j].partition_id is Some ==> self.tables_view()[
                        j
                    ].partition_id is Some),
                forall|j: int|
                    old(self).tables_view().len() <= j < self.tables_view().len()
                        ==> !seq_has_name(
                        old(self).tables_view(),
                        #[trigger] self.tables_view()[j].table_name@,
                    ) && self.tables_view()[j].max_persisted is None && (exists|k: int|
                        0 <= k < items@.len() && self.tables_view()[j].table_name@
                            == items@[k].table_name@ && self.tables_view()[j].table_id
                            == items@[k].table_id),
                forall|k: int|
                    0 <= k < idx ==> seq_has_name(
                        self.tables_view(),
                        #[trigger] items@[k].table_name@,
                    ),
                forall|j: int|
                    0 <= j < self.tables_view().len() ==> #[trigger] self.tables_view()[
                        j
                    ].max_buffered == slot_initial_buffered(old(self).tables_view(), j)
                        || self.tables_view()[j].max_buffered == max_sequence(
                        slot_initial_buffered(old(self).tables_view(), j),
                        Some(sequence_number),
                    ),
                forall|j: int|
                    0 <= j < old(self).tables_view().len() && old(self).tables_view()[j].skips(
                        sequence_number,
                    ) ==> #[trigger] self.tables_view()[j] == old(self).tables_view()[j],
                forall|k: int|
                    0 <= k < idx && !item_skipped(
                        old(self).tables_view(),
                        #[trigger] items@[k],
                        sequence_number,
                    ) ==> exists|j: int|
                        0 <= j < self.tables_view().len() && self.tables_view()[j].table_name@
                            == items@[k].table_name@ && self.tables_view()[j].max_buffered
                            == max_sequence(
                            initial_buffered(old(self).tables_view(), items@[k].table_name@),
                            Some(sequence_number),
                        ),
                actions.len() == idx,
                forall|k: int|
                    0 <= k < idx ==> ((#[trigger] actions[k]) is Skipped <==> item_skipped(
                        old(self).tables_view(),
                        items@[k],
                        sequence_number,
                    )),
                all_skipped == (forall|k: int| 0 <= k < idx ==> (#[trigger] actions[k]) is Skipped),
                pause_writes == (exists|k: int|
                    0 <= k < idx && actions[k] == DmlApplyAction::Applied(true)),
            decreases n - idx,
        {
            let ghost orig = old(self).tables_view();
            let ghost start = self.tables_view();
            let item = &items[idx];
            let slot = match self.tables.by_name(&item.table_name) {
                Some(i) => i,
                None => {
                    proof {
                        self.lemma_unknown_name_has_fresh_id(*old(self), items@, idx as int);
                    }
                    self.insert_table(item.table_name.clone(), item.table_id)
                },
            };
            let ghost before = self.tables_view();
            proof {
                // The slot resolution either found a record or pushed one; in
                // both cases the relations to the original registry carry over.
                assert(before[slot as int].table_name@ == items@[idx as int].table_name@);
                assert forall|j: int| 0 <= j < orig.len() implies #[trigger] before[j].table_name@
                    == orig[j].table_name@ && before[j].table_id == orig[j].table_id && before[
                    j
                ].max_persisted == orig[j].max_persisted && (orig[j].partition_id is Some
                    ==> before[j].partition_id is Some) by {
                    assert(before[j] == start[j]);
                }
                assert forall|j: int| orig.len() <= j < before.len() implies !seq_has_name(
                    orig,
                    #[trigger] before[j].table_name@,
                ) && before[j].max_persisted is None && (exists|k: int|
                    0 <= k < items@.len() && before[j].table_name@ == items@[k].table_name@
                        && before[j].table_id == items@[k].table_id) by {
                    if j < start.len() {
                        assert(before[j] == start[j]);
                    } else {
                        // The record just created for this item.
                        lemma_name_absent_in_prefix(orig, start, before[j].table_name@);
                        assert(before[j].table_name@ == items@[idx as int].table_name@
                            && before[j].table_id == items@[idx as int].table_id);
                    }
                }
                assert forall|j: int| 0 <= j < before.len() implies #[trigger] before[
                    j
                ].max_buffered == slot_initial_buffered(orig, j) || before[j].max_buffered
                    == max_sequence(slot_initial_buffered(orig, j), Some(sequence_number)) by {
                    if j < start.len() {
                        assert(before[j] == start[j]);
                    } else {
                        // A record created by this operation starts unbuffered.
                        assert(before[j].max_buffered is None);
                    }
                }
            }
            let action = match self.tables.buffer_write_at(
                slot,
                sequence_number,
                &item.batch,
                &partition_key,
                &mut self.partition_provider,
                lifecycle_handle,
            ) {
                Ok(a) => a,
                Err(e) => {
                    proof {
                        assert(self.tables_view() =~= before);
                        lemma_unsettled_item(
                            orig,
                            before,
                            items@,
                            idx as int,
                            slot as int,
                            sequence_number,
                        );
                        assert(!item_settled(orig, write.tables@[idx as int], sequence_number));
                    }
                    return Err(e);
                },
            };
            proof {
                if action is Skipped {
                    lemma_skip_matches(orig, before, items@, idx as int, slot as int, sequence_number);
                } else {
                    lemma_applied_matches(orig, before, items@, idx as int, slot as int, sequence_number);
                }
                // The buffering step changes nothing an invariant watches:
                // names, ids and persisted watermarks stay put.
                let cur = self.tables_view();
                assert(cur.len() == before.len());
                assert forall|j: int| 0 <= j < cur.len() implies #[trigger] cur[j].table_name@
                    == before[j].table_name@ && cur[j].table_id == before[j].table_id && cur[
                    j
                ].max_persisted == before[j].max_persisted && (before[j].partition_id is Some
                    ==> cur[j].partition_id is Some) by {
                    if j != slot as int {
                        assert(cur[j] == before[j]);
                    }
                }
                assert forall|j: int| orig.len() <= j < cur.len() implies !seq_has_name(
                    orig,
                    #[trigger] cur[j].table_name@,
                ) && cur[j].max_persisted is None && (exists|k: int|
                    0 <= k < items@.len() && cur[j].table_name@ == items@[k].table_name@ && cur[
                        j
                    ].table_id == items@[k].table_id) by {
                    assert(cur[j].table_name@ == before[j].table_name@);
                    let k = choose|k: int|
                        0 <= k < items@.len() && before[j].table_name@ == items@[k].table_name@
                            && before[j].table_id == items@[k].table_id;
                    assert(0 <= k < items@.len() && cur[j].table_name@ == items@[k].table_name@
                        && cur[j].table_id == items@[k].table_id);
                }
                assert forall|k: int| 0 <= k < idx + 1 implies seq_has_name(
                    cur,
                    #[trigger] items@[k].table_name@,
                ) by {
                    if k == idx as int {
                        assert(cur[slot as int].table_name@ == items@[k].table_name@);
                    } else {
                        let j = choose|j: int|
                            0 <= j < start.len() && start[j].table_name@ == items@[k].table_name@;
                        assert(before[j] == start[j]);
                        assert(cur[j].table_name@ == items@[k].table_name@);
                    }
                }
                // A record that already held this write durably is never
                // touched.
                assert forall|j: int|
                    0 <= j < orig.len() && orig[j].skips(sequence_number) implies #[trigger] cur[
                    j
                ] == orig[j] by {
                    assert(before[j] == start[j]);
                    if j == slot as int {
                        assert(before[j].skips(sequence_number));
                        assert(cur[j] == before[j]);
                    } else {
                        assert(cur[j] == before[j]);
                    }
                }
                // Buffered watermarks only ever take this write's sequence
                // number, once.
                assert forall|j: int| 0 <= j < cur.len() implies #[trigger] cur[j].max_buffered
                    == slot_initial_buffered(orig, j) || cur[j].max_buffered == max_sequence(
                    slot_initial_buffered(orig, j),
                    Some(sequence_number),
                ) by {
                    if j != slot as int || action is Skipped {
                        assert(cur[j] == before[j]);
                    } else {
                        assert(cur[j].max_buffered == max_sequence(
                            before[j].max_buffered,
                            Some(sequence_number),
                        ));
                    }
                }
                assert forall|k: int|
                    0 <= k < idx + 1 && !item_skipped(
                        orig,
                        #[trigger] items@[k],
                        sequence_number,
                    ) implies exists|j: int|
                    0 <= j < cur.len() && cur[j].table_name@ == items@[k].table_name@ && cur[
                        j
                    ].max_buffered == max_sequence(
                        initial_buffered(orig, items@[k].table_name@),
                        Some(sequence_number),
                    ) by {
                    if k == idx as int {
                        // Not already durable, so the item was applied onto
                        // its slot.
                        assert(action is Applied);
                        assert(cur[slot as int].max_buffered == max_sequence(
                            before[slot as int].max_buffered,
                            Some(sequence_number),
                        ));
                        if (slot as int) < orig.len() {
                            lemma_dual_lookup_agree(orig, slot as int);
                            assert(slot_initial_buffered(orig, slot as int) == initial_buffered(
                                orig,
                                items@[k].table_name@,
                            ));
                        } else {
                            assert(!seq_has_name(orig, before[slot as int].table_name@));
                            assert(initial_buffered(orig, items@[k].table_name@) is None);
                        }
                        assert(cur[slot as int].max_buffered == max_sequence(
                            initial_buffered(orig, items@[k].table_name@),
                            Some(sequence_number),
                        ));
                    } else {
                        let j = choose|j: int|
                            0 <= j < start.len() && start[j].table_name@ == items@[k].table_name@
                                && start[j].max_buffered == max_sequence(
                                initial_buffered(orig, items@[k].table_name@),
                                Some(sequence_number),
                            );
                        assert(before[j] == start[j]);
                        if j == slot as int && action is Applied {
                            assert(cur[j].max_buffered == max_sequence(
                                before[j].max_buffered,
                                Some(sequence_number),
                            ));
                        } else {
                            assert(cur[j] == before[j]);
                        }
                    }
                }
            }
            match action {
                DmlApplyAction::Applied(should_pause) => {
                    pause_writes = pause_writes || should_pause;
                    all_skipped = false;
                },
                DmlApplyAction::Skipped => {},
            }
            proof {
                let prev = actions;
                actions = actions.push(action);
                assert(actions.len() == idx + 1);
                assert(actions[idx as int] == action);
                assert(forall|k: int| 0 <= k < idx ==> actions[k] == prev[k]);
            }
            idx = idx + 1;
        }
        proof {
            assert(actions.len() == write.tables@.len());
            if all_skipped {
                assert(combine_actions(actions) == DmlApplyAction::Skipped);
            } else {
                assert(combine_actions(actions) == DmlApplyAction::Applied(pause_writes));
            }
        }
        if all_skipped {
            Ok(DmlApplyAction::Skipped)
        } else {
            // At least some items were applied.
            Ok(DmlApplyAction::Applied(pause_writes))
        }
    }

    /// An item whose name no current record holds also carries an id no
    /// current record holds, because the write is consistent with the
    /// registry and every record added so far came from an earlier item.
    proof fn lemma_unknown_name_has_fresh_id(
        self,
        orig: Self,
        items: Seq<WriteItem>,
        idx: int,
    )
        requires
            self.wf(),
            orig.wf(),
            0 <= idx < items.len(),
            write_consistent(orig.tables_view(), items),
            self.tables_view().len() >= orig.tables_view().len(),
            forall|j: int|
                0 <= j < orig.tables_view().len() ==> #[trigger] self.tables_view()[j].table_name@
                    == orig.tables_view()[j].table_name@ && self.tables_view()[j].table_id
                    == orig.tables_view()[j].table_id,
            forall|j: int|
                orig.tables_view().len() <= j < self.tables_view().len() ==> exists|k: int|
                    0 <= k < items.len() && #[trigger] self.tables_view()[j].table_name@
                        == items[k].table_name@ && self.tables_view()[j].table_id
                        == items[k].table_id,
            !seq_has_name(self.tables_view(), items[idx].table_name@),
        ensures
            !seq_has_id(self.tables_view(), items[idx].table_id),
    {
        let tables = self.tables_view();
        let orig_tables = orig.tables_view();
        lemma_name_absent_in_prefix(orig_tables, tables, items[idx].table_name@);
        // The write is consistent, so the id is as unknown to the original
        // registry as the name is.
        assert(!seq_has_id(orig_tables, items[idx].table_id));
        assert forall|i: int| 0 <= i < tables.len() implies tables[i].table_id
            != items[idx].table_id by {
            assert(tables[i].table_name@ != items[idx].table_name@);
            if i < orig_tables.len() {
                assert(tables[i].table_id == orig_tables[i].table_id);
                if tables[i].table_id == items[idx].table_id {
                    assert(seq_has_id(orig_tables, items[idx].table_id));
                }
            } else {
                // Records added by this write carry an earlier item's name and
                // id; different names force different ids.
                let k = choose|k: int|
                    0 <= k < items.len() && tables[i].table_name@ == items[k].table_name@
                        && tables[i].table_id == items[k].table_id;
                assert(items[k].table_name@ != items[idx].table_name@);
            }
        }
    }

    /// The aggregate progress an observer is told: the fold of every table's
    /// own progress, overlaid with the in-flight marker.
    pub open spec fn progress_spec(self) -> ShardProgress {
        fold_progress(
            self.tables_view(),
            ShardProgress::empty_spec().with_actively_buffering_spec(self.marker_spec()),
            self.tables_view().len() as int,
        )
    }

    /// Compute aggregate progress on demand; pure. A sequence number that is
    /// actively buffering is reported as such rather than left to be inferred
    /// from possibly-inconsistent per-table watermarks.
    pub fn progress(&self) -> (r: ShardProgress)
        ensures
            r == self.progress_spec(),
            r.actively_buffering == self.marker_spec(),
    {
        let marker = self.buffering_sequence_number.current();
        // Properly account for any sequence number that is actively buffering
        // and thus not yet completely readable.
        let mut progress = ShardProgress::new().actively_buffering(marker);
        let ghost init = progress;
        let mut i: usize = 0;
        let n = self.tables.len();
        while i < n
            invariant
                i <= n,
                n == self.tables_view().len(),
                init == ShardProgress::empty_spec().with_actively_buffering_spec(
                    self.marker_spec(),
                ),
                progress == fold_progress(self.tables_view(), init, i as int),
            decreases n - i,
        {
            // Consolidate progress across the tables.
            progress = progress.combine(self.tables.get(i).progress());
            i = i + 1;
        }
        proof {
            lemma_fold_progress_actively(self.tables_view(), init, n as int);
        }
        progress
    }

    /// Record that everything up to `sequence_number` is durable for the
    /// table named `table_name`; reports whether the table was known. The
    /// registry's records and counter are otherwise untouched.
    pub fn mark_persisted(&mut self, table_name: &TableName, sequence_number: SequenceNumber) -> (r:
        bool)
        requires
            old(self).wf(),
        ensures
            final(self).wf(),
            final(self).same_config(*old(self)),
            final(self).marker_spec() == old(self).marker_spec(),
            final(self).table_count_spec() == old(self).table_count_spec(),
            final(self).tables_view().len() == old(self).tables_view().len(),
            r == seq_has_name(old(self).tables_view(), table_name@),
            !r ==> final(self).tables_view() == old(self).tables_view(),
            r ==> forall|j: int|
                0 <= j < old(self).tables_view().len() && j != seq_slot_of_name(
                    old(self).tables_view(),
                    table_name@,
                ) ==> #[trigger] final(self).tables_view()[j] == old(self).tables_view()[j],
            r ==> final(self).tables_view()[seq_slot_of_name(
                old(self).tables_view(),
                table_name@,
            )].max_persisted == crate::progress::max_sequence(
                old(self).tables_view()[seq_slot_of_name(
                    old(self).tables_view(),
                    table_name@,
                )].max_persisted,
                Some(sequence_number),
            ),
            r ==> final(self).tables_view()[seq_slot_of_name(
                old(self).tables_view(),
                table_name@,
            )].same_identity(
                old(self).tables_view()[seq_slot_of_name(old(self).tables_view(), table_name@)],
            ),
    {
        match self.tables.by_name(table_name) {
            Some(i) => {
                proof {
                    lemma_dual_lookup_agree(self.tables_view(), i as int);
                }
                self.tables.mark_persisted_at(i, sequence_number);
                true
            },
            None => false,
        }
    }
}

/// A name that no current record holds was also unknown to the original
/// registry the current one grew from.
proof fn lemma_name_absent_in_prefix(orig: Seq<TableData>, cur: Seq<TableData>, name: Seq<char>)
    requires
        cur.len() >= orig.len(),
        forall|j: int| 0 <= j < orig.len() ==> #[trigger] cur[j].table_name@ == orig[j].table_name@,
        !seq_has_name(cur, name),
    ensures
        !seq_has_name(orig, name),
{
    if seq_has_name(orig, name) {
        let j = choose|j: int| 0 <= j < orig.len() && orig[j].table_name@ == name;
        assert(cur[j].table_name@ == name);
        assert(seq_has_name(cur, name));
    }
}

/// At the failing item, nothing in the original registry had settled it: its
/// table either was unknown, or still needed partition resolution.
proof fn lemma_unsettled_item(
    orig: Seq<TableData>,
    before: Seq<TableData>,
    items: Seq<WriteItem>,
    idx: int,
    slot: int,
    sequence_number: SequenceNumber,
)
    requires
        seq_wf(orig),
        seq_wf(before),
        0 <= idx < items.len(),
        0 <= slot < before.len(),
        before[slot].table_name@ == items[idx].table_name@,
        before[slot].partition_id is None,
        !before[slot].skips(sequence_number),
        before.len() >= orig.len(),
        forall|j: int|
            0 <= j < orig.len() ==> #[trigger] before[j].table_name@ == orig[j].table_name@
                && before[j].max_persisted == orig[j].max_persisted && (
            orig[j].partition_id is Some ==> before[j].partition_id is Some),
        forall|j: int|
            orig.len() <= j < before.len() ==> !seq_has_name(
                orig,
                #[trigger] before[j].table_name@,
            ),
    ensures
        !item_settled(orig, items[idx], sequence_number),
{
    if item_settled(orig, items[idx], sequence_number) {
        let i = choose|i: int|
            0 <= i < orig.len() && orig[i].table_name@ == items[idx].table_name@ && (
            orig[i].partition_id is Some || orig[i].skips(sequence_number));
        assert(seq_has_name(orig, items[idx].table_name@));
        // The slot must be the original record itself: names are unique.
        assert(slot < orig.len());
        assert(before[slot].table_name@ == orig[slot].table_name@);
        assert(orig[i].table_name@ == orig[slot].table_name@);
        assert(i == slot);
        assert(before[slot].max_persisted == orig[slot].max_persisted);
    }
}

/// A skipped item's table already held the write durably in the original
/// registry: skipping depends only on the persisted watermark, which this
/// operation never moves.
proof fn lemma_skip_matches(
    orig: Seq<TableData>,
    before: Seq<TableData>,
    items: Seq<WriteItem>,
    idx: int,
    slot: int,
    sequence_number: SequenceNumber,
)
    requires
        seq_wf(orig),
        seq_wf(before),
        0 <= idx < items.len(),
        0 <= slot < before.len(),
        before[slot].table_name@ == items[idx].table_name@,
        before[slot].skips(sequence_number),
        before.len() >= orig.len(),
        forall|j: int|
            0 <= j < orig.len() ==> #[trigger] before[j].table_name@ == orig[j].table_name@
                && before[j].max_persisted == orig[j].max_persisted,
        forall|j: int|
            orig.len() <= j < before.len() ==> !seq_has_name(orig, #[trigger] before[j].table_name@)
                && before[j].max_persisted is None,
    ensures
        item_skipped(orig, items[idx], sequence_number),
{
    // A record with no persisted watermark skips nothing, so the slot is an
    // original record, whose watermark the original registry already held.
    assert(slot < orig.len());
    assert(orig[slot].table_name@ == items[idx].table_name@);
    assert(orig[slot].skips(sequence_number));
}

/// An applied item's table did not already hold the write durably in the
/// original registry.
proof fn lemma_applied_matches(
    orig: Seq<TableData>,
    before: Seq<TableData>,
    items: Seq<WriteItem>,
    idx: int,
    slot: int,
    sequence_number: SequenceNumber,
)
    requires
        seq_wf(orig),
        seq_wf(before),
        0 <= idx < items.len(),
        0 <= slot < before.len(),
        before[slot].table_name@ == items[idx].table_name@,
        !before[slot].skips(sequence_number),
        before.len() >= orig.len(),
        forall|j: int|
            0 <= j < orig.len() ==> #[trigger] before[j].table_name@ == orig[j].table_name@
                && before[j].max_persisted == orig[j].max_persisted,
    ensures
        !item_skipped(orig, items[idx], sequence_number),
{
    if item_skipped(orig, items[idx], sequence_number) {
        let i = choose|i: int|
            0 <= i < orig.len() && orig[i].table_name@ == items[idx].table_name@ && orig[i].skips(
                sequence_number,
            );
        assert(before[i].table_name@ == items[idx].table_name@);
        assert(i == slot);
        assert(before[slot].max_persisted == orig[i].max_persisted);
    }
}

} // verus!
