use ingest_buffer::capabilities::{FixedLifecycleHandle, FixedPartitionProvider};
use ingest_buffer::dml::{DmlOperation, DmlWrite, RowBatch, WriteItem};
use ingest_buffer::ids::{NamespaceId, PartitionId, SequenceNumber, ShardId, TableId};
use ingest_buffer::names::{NamespaceName, PartitionKey, TableName};
use ingest_buffer::namespace::NamespaceData;
use ingest_buffer::progress::ShardProgress;
use ingest_buffer::table::TableData;

fn seq(value: i64) -> Option<SequenceNumber> {
    Some(SequenceNumber::new(value))
}

fn progress_value(
    max_buffered: Option<SequenceNumber>,
    max_persisted: Option<SequenceNumber>,
    actively_buffering: Option<SequenceNumber>,
) -> ShardProgress {
    ShardProgress { max_buffered, max_persisted, actively_buffering }
}

#[test]
fn combine_takes_the_later_watermarks() {
    let a = progress_value(seq(10), seq(4), None);
    let b = progress_value(seq(7), seq(6), None);
    let merged = a.combine(b);
    assert_eq!(merged.max_buffered, seq(10));
    assert_eq!(merged.max_persisted, seq(6));
    assert_eq!(merged.actively_buffering, None);
}

#[test]
fn combine_reports_the_earliest_active_write() {
    let a = progress_value(None, None, seq(9));
    let b = progress_value(None, None, seq(12));
    assert_eq!(a.combine(b).actively_buffering, seq(9));
    // Presence wins over absence in either order.
    assert_eq!(a.combine(progress_value(None, None, None)).actively_buffering, seq(9));
    assert_eq!(progress_value(None, None, None).combine(a).actively_buffering, seq(9));
}

#[test]
fn combine_is_associative_on_sample_values() {
    let a = progress_value(seq(3), None, seq(8));
    let b = progress_value(seq(5), seq(1), None);
    let c = progress_value(None, seq(2), seq(6));
    assert_eq!(a.combine(b).combine(c), a.combine(b.combine(c)));
    assert_eq!(a.combine(b), b.combine(a));
}

#[test]
fn actively_buffering_overlays_the_marker() {
    let p = ShardProgress::new().actively_buffering(seq(5));
    assert_eq!(p.max_buffered, None);
    assert_eq!(p.max_persisted, None);
    assert_eq!(p.actively_buffering, seq(5));
}

#[test]
fn progress_of_two_sequential_writes() {
    let mut ns = NamespaceData::new(
        NamespaceId::new(42),
        NamespaceName::new("platanos".to_string()),
        ShardId::new(22),
        FixedPartitionProvider::new(PartitionId::new(0)),
    );
    let mut lifecycle = FixedLifecycleHandle::new(false);
    let first = ns
        .buffer_operation(
            DmlOperation::Write(DmlWrite {
                sequence_number: seq(5),
                partition_key: PartitionKey::new("day-1".to_string()),
                tables: vec![WriteItem {
                    table_name: TableName::new("a".to_string()),
                    table_id: TableId::new(1),
                    batch: RowBatch::new("rows".to_string()),
                }],
            }),
            &mut lifecycle,
        )
        .expect("buffer op should succeed");
    let second = ns
        .buffer_operation(
            DmlOperation::Write(DmlWrite {
                sequence_number: seq(6),
                partition_key: PartitionKey::new("day-1".to_string()),
                tables: vec![WriteItem {
                    table_name: TableName::new("b".to_string()),
                    table_id: TableId::new(2),
                    batch: RowBatch::new("rows".to_string()),
                }],
            }),
            &mut lifecycle,
        )
        .expect("buffer op should succeed");
    assert_eq!(first, ingest_buffer::dml::DmlApplyAction::Applied(false));
    assert_eq!(second, ingest_buffer::dml::DmlApplyAction::Applied(false));

    // No write is in flight, and the watermarks reflect both tables' own
    // recorded progress.
    let progress = ns.progress();
    assert_eq!(progress.actively_buffering, None);
    assert_eq!(progress.max_buffered, seq(6));
    assert_eq!(progress.max_persisted, None);

    let a = ns.table_data(&TableName::new("a".to_string())).expect("table a exists");
    assert_eq!(a.progress().max_buffered, seq(5));
    let b = ns.table_data(&TableName::new("b".to_string())).expect("table b exists");
    assert_eq!(b.progress().max_buffered, seq(6));
}

#[test]
fn empty_namespace_reports_empty_progress() {
    let ns: NamespaceData<FixedPartitionProvider> = NamespaceData::new(
        NamespaceId::new(1),
        NamespaceName::new("empty".to_string()),
        ShardId::new(2),
        FixedPartitionProvider::new(PartitionId::new(0)),
    );
    assert_eq!(ns.progress(), ShardProgress::new());
    assert_eq!(ns.table_count(), 0);
    assert_eq!(ns.namespace_id().get(), 1);
    assert_eq!(ns.shard_id().get(), 2);
    assert_eq!(ns.namespace_name().as_str(), "empty");
}

#[test]
fn mark_persisted_reports_unknown_tables() {
    let mut ns = NamespaceData::new(
        NamespaceId::new(1),
        NamespaceName::new("empty".to_string()),
        ShardId::new(2),
        FixedPartitionProvider::new(PartitionId::new(0)),
    );
    assert!(!ns.mark_persisted(&TableName::new("missing".to_string()), SequenceNumber::new(3)));
    assert_eq!(ns.table_count(), 0);
}

#[test]
fn table_names_compare_by_value() {
    let a = TableName::new("temp_readings".to_string());
    let b = TableName::new("temp_readings".to_string());
    let c = TableName::new("hum_readings".to_string());
    assert!(a == b);
    assert!(!(a == c));
    assert_eq!(a.as_str(), "temp_readings");
    assert_eq!(a.clone().as_str(), "temp_readings");
}

#[test]
fn table_record_exposes_its_identity() {
    let table = TableData::new(
        TableId::new(44),
        TableName::new("test_table".to_string()),
        ShardId::new(22),
        NamespaceId::new(42),
    );
    assert_eq!(table.table_id().get(), 44);
    assert_eq!(table.table_name().as_str(), "test_table");
    assert_eq!(table.progress(), ShardProgress::new());
}

#[test]
fn row_batch_reports_its_size() {
    let batch = RowBatch::new("abcde".to_string());
    assert_eq!(batch.byte_count(), 5);
}
