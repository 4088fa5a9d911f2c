use ingest_buffer::capabilities::{
    FixedLifecycleHandle, FixedPartitionProvider, PartitionProvider,
};
use ingest_buffer::dml::{
    BufferError, DmlApplyAction, DmlDelete, DmlOperation, DmlWrite, RowBatch, WriteItem,
};
use ingest_buffer::ids::{NamespaceId, PartitionId, SequenceNumber, ShardId, TableId};
use ingest_buffer::names::{NamespaceName, PartitionKey, TableName};
use ingest_buffer::namespace::NamespaceData;

const NAMESPACE_ID: i64 = 42;
const SHARD_ID: i64 = 22;
const TABLE_ID: i64 = 44;
const NAMESPACE_NAME: &str = "platanos";
const TABLE_NAME: &str = "test_table";

fn item(name: &str, id: i64, data: &str) -> WriteItem {
    WriteItem {
        table_name: TableName::new(name.to_string()),
        table_id: TableId::new(id),
        batch: RowBatch::new(data.to_string()),
    }
}

fn write_op(sequence: i64, key: &str, items: Vec<WriteItem>) -> DmlOperation {
    DmlOperation::Write(DmlWrite {
        sequence_number: Some(SequenceNumber::new(sequence)),
        partition_key: PartitionKey::new(key.to_string()),
        tables: items,
    })
}

fn new_namespace() -> NamespaceData<FixedPartitionProvider> {
    NamespaceData::new(
        NamespaceId::new(NAMESPACE_ID),
        NamespaceName::new(NAMESPACE_NAME.to_string()),
        ShardId::new(SHARD_ID),
        FixedPartitionProvider::new(PartitionId::new(0)),
    )
}

#[test]
fn test_namespace_double_ref() {
    let mut ns = new_namespace();

    // Assert the namespace name was stored
    assert_eq!(ns.namespace_name().as_str(), NAMESPACE_NAME);

    // Assert the namespace does not contain the test data
    assert!(ns.table_data(&TableName::new(TABLE_NAME.to_string())).is_none());
    assert!(ns.table_id(TableId::new(TABLE_ID)).is_none());

    // Write some test data
    let mut lifecycle = FixedLifecycleHandle::new(false);
    ns.buffer_operation(
        write_op(
            0,
            "banana-split",
            vec![item(
                TABLE_NAME,
                TABLE_ID,
                r#"test_table,city=Medford day="sun",temp=55 22"#,
            )],
        ),
        &mut lifecycle,
    )
    .expect("buffer op should succeed");

    // Both forms of referencing the table should succeed
    assert!(ns.table_data(&TableName::new(TABLE_NAME.to_string())).is_some());
    assert!(ns.table_id(TableId::new(TABLE_ID)).is_some());

    // And the table counter should increase
    assert_eq!(ns.table_count(), 1);
}

#[test]
fn dual_lookups_yield_identical_instance() {
    let mut ns = new_namespace();
    let mut lifecycle = FixedLifecycleHandle::new(false);
    ns.buffer_operation(
        write_op(5, "day-1", vec![item("temp_readings", 7, "temp_readings temp=21 5")]),
        &mut lifecycle,
    )
    .expect("buffer op should succeed");

    let by_name = ns
        .table_data(&TableName::new("temp_readings".to_string()))
        .expect("lookup by name should succeed");
    let by_id = ns.table_id(TableId::new(7)).expect("lookup by id should succeed");
    assert!(std::ptr::eq(by_name, by_id));
    assert_eq!(ns.table_count(), 1);
}

#[test]
fn repeated_get_or_create_counts_once() {
    let mut ns = new_namespace();
    let mut lifecycle = FixedLifecycleHandle::new(false);
    for sequence in [5, 6, 7] {
        ns.buffer_operation(
            write_op(sequence, "day-1", vec![item("temp_readings", 7, "rows")]),
            &mut lifecycle,
        )
        .expect("buffer op should succeed");
    }
    assert_eq!(ns.table_count(), 1);
    // A write naming one table twice also creates it once.
    ns.buffer_operation(
        write_op(8, "day-1", vec![item("hum_readings", 8, "a"), item("hum_readings", 8, "b")]),
        &mut lifecycle,
    )
    .expect("buffer op should succeed");
    assert_eq!(ns.table_count(), 2);
}

#[test]
fn pause_request_dominates_the_operation() {
    let mut ns = new_namespace();
    let mut pausing = FixedLifecycleHandle::new(true);
    let outcome = ns
        .buffer_operation(
            write_op(5, "day-1", vec![item("a", 1, "rows"), item("b", 2, "rows")]),
            &mut pausing,
        )
        .expect("buffer op should succeed");
    assert_eq!(outcome, DmlApplyAction::Applied(true));
}

#[test]
fn healthy_tables_report_no_pause() {
    let mut ns = new_namespace();
    let mut lifecycle = FixedLifecycleHandle::new(false);
    let outcome = ns
        .buffer_operation(
            write_op(5, "day-1", vec![item("a", 1, "rows"), item("b", 2, "rows")]),
            &mut lifecycle,
        )
        .expect("buffer op should succeed");
    assert_eq!(outcome, DmlApplyAction::Applied(false));
    assert_eq!(lifecycle.calls, 2);
}

#[test]
fn fully_durable_write_is_skipped() {
    let mut ns = new_namespace();
    let mut lifecycle = FixedLifecycleHandle::new(false);
    ns.buffer_operation(write_op(5, "day-1", vec![item("a", 1, "rows")]), &mut lifecycle)
        .expect("buffer op should succeed");
    assert!(ns.mark_persisted(&TableName::new("a".to_string()), SequenceNumber::new(10)));

    // At and below the persisted watermark the write is already durable.
    let at = ns
        .buffer_operation(write_op(10, "day-1", vec![item("a", 1, "rows")]), &mut lifecycle)
        .expect("buffer op should succeed");
    assert_eq!(at, DmlApplyAction::Skipped);
    let below = ns
        .buffer_operation(write_op(7, "day-1", vec![item("a", 1, "rows")]), &mut lifecycle)
        .expect("buffer op should succeed");
    assert_eq!(below, DmlApplyAction::Skipped);

    // Above it the write is buffered again.
    let above = ns
        .buffer_operation(write_op(11, "day-1", vec![item("a", 1, "rows")]), &mut lifecycle)
        .expect("buffer op should succeed");
    assert_eq!(above, DmlApplyAction::Applied(false));
}

#[test]
fn partially_durable_write_is_applied() {
    let mut ns = new_namespace();
    let mut lifecycle = FixedLifecycleHandle::new(false);
    ns.buffer_operation(write_op(5, "day-1", vec![item("a", 1, "rows")]), &mut lifecycle)
        .expect("buffer op should succeed");
    assert!(ns.mark_persisted(&TableName::new("a".to_string()), SequenceNumber::new(10)));

    // One table skips, its sibling applies: the operation is applied.
    let outcome = ns
        .buffer_operation(
            write_op(7, "day-1", vec![item("a", 1, "rows"), item("b", 2, "rows")]),
            &mut lifecycle,
        )
        .expect("buffer op should succeed");
    assert_eq!(outcome, DmlApplyAction::Applied(false));
}

#[test]
fn empty_write_is_skipped() {
    let mut ns = new_namespace();
    let mut lifecycle = FixedLifecycleHandle::new(false);
    let outcome = ns
        .buffer_operation(write_op(5, "day-1", vec![]), &mut lifecycle)
        .expect("buffer op should succeed");
    assert_eq!(outcome, DmlApplyAction::Skipped);
    assert_eq!(ns.table_count(), 0);
}

#[test]
fn delete_is_an_inert_no_op() {
    let mut ns = new_namespace();
    let mut lifecycle = FixedLifecycleHandle::new(false);
    ns.buffer_operation(write_op(5, "day-1", vec![item("a", 1, "rows")]), &mut lifecycle)
        .expect("buffer op should succeed");

    let outcome = ns
        .buffer_operation(
            DmlOperation::Delete(DmlDelete {
                table_name: TableName::new("a".to_string()),
                sequence_number: Some(SequenceNumber::new(6)),
            }),
            &mut lifecycle,
        )
        .expect("delete should report success");
    assert_eq!(outcome, DmlApplyAction::Applied(false));
    assert_eq!(ns.table_count(), 1);
    assert!(ns.table_data(&TableName::new("a".to_string())).is_some());
    // The table's own watermark is untouched by the delete.
    let progress = ns.progress();
    assert_eq!(progress.max_buffered, Some(SequenceNumber::new(5)));
    assert_eq!(progress.actively_buffering, None);
}

#[test]
fn resolution_failure_propagates_and_clears_the_marker() {
    let mut ns = NamespaceData::new(
        NamespaceId::new(NAMESPACE_ID),
        NamespaceName::new(NAMESPACE_NAME.to_string()),
        ShardId::new(SHARD_ID),
        FixedPartitionProvider::failing(),
    );
    let mut lifecycle = FixedLifecycleHandle::new(false);
    let result = ns.buffer_operation(write_op(5, "day-1", vec![item("a", 1, "rows")]), &mut lifecycle);
    assert_eq!(result, Err(BufferError::PartitionResolution { table_id: TableId::new(1) }));
    // The table record was created before buffering failed, and the in-flight
    // marker was released on the error path.
    assert_eq!(ns.table_count(), 1);
    assert!(ns.table_data(&TableName::new("a".to_string())).is_some());
    assert_eq!(ns.progress().actively_buffering, None);
    assert_eq!(ns.progress().max_buffered, None);
}

struct ScriptedProvider {
    answers: Vec<Result<PartitionId, BufferError>>,
}

impl PartitionProvider for ScriptedProvider {
    fn get_partition(
        &mut self,
        _partition_key: &PartitionKey,
        _shard_id: ShardId,
        _namespace_id: NamespaceId,
        table_id: TableId,
        _table_name: &TableName,
    ) -> Result<PartitionId, BufferError> {
        if self.answers.is_empty() {
            Err(BufferError::PartitionResolution { table_id })
        } else {
            self.answers.remove(0)
        }
    }
}

#[test]
fn mid_operation_failure_leaves_earlier_tables_applied() {
    let mut ns = NamespaceData::new(
        NamespaceId::new(NAMESPACE_ID),
        NamespaceName::new(NAMESPACE_NAME.to_string()),
        ShardId::new(SHARD_ID),
        ScriptedProvider { answers: vec![Ok(PartitionId::new(1))] },
    );
    let mut lifecycle = FixedLifecycleHandle::new(false);
    let result = ns.buffer_operation(
        write_op(5, "day-1", vec![item("a", 1, "rows"), item("b", 2, "rows")]),
        &mut lifecycle,
    );
    assert_eq!(result, Err(BufferError::PartitionResolution { table_id: TableId::new(2) }));
    // The first table stays applied; there is no rollback across tables.
    assert_eq!(ns.progress().max_buffered, Some(SequenceNumber::new(5)));
    assert_eq!(ns.progress().actively_buffering, None);
    assert_eq!(ns.table_count(), 2);
    assert_eq!(lifecycle.calls, 1);
}
