use delta_ingest::batch::{BatchBuilder, EmptyBatchError};
use delta_ingest::driver::{run_ingestion, DriverConfig, Mode};
use delta_ingest::payload::ParsedPayload;
use delta_ingest::schema::{record_schema, schemas_match, ColumnSpec, ColumnType, TableSchema};
use delta_ingest::source::{decode_messages, Position, RawMessage, SimSource, SourceMessage};
use delta_ingest::table::{TableError, TableState};
use delta_ingest::validate::{validate, Record, ValidationError};

const GOOD_TS: &str = "2024-07-04T19:29:28.625617+00:00";
const GOOD_TS_MICROS: i64 = 1720121368625617;

fn good_payload(idx: i64) -> ParsedPayload {
    ParsedPayload {
        idx: Some(idx),
        name: Some(format!("name{}", idx)),
        timestamp: Some(GOOD_TS.to_string()),
    }
}

fn msg(offset: i64, payload: Option<ParsedPayload>) -> SourceMessage {
    SourceMessage {
        position: Position {
            partition: 0,
            offset,
        },
        payload,
    }
}

fn good_msgs(n: i64) -> Vec<SourceMessage> {
    (0..n).map(|i| msg(i, Some(good_payload(i)))).collect()
}

#[test]
fn validate_accepts_well_formed_payload() {
    let r = validate(&good_payload(5)).unwrap();
    assert_eq!(r.idx, 5);
    assert_eq!(r.name, "name5");
    assert_eq!(r.timestamp_micros, GOOD_TS_MICROS);
}

#[test]
fn validate_rejects_each_bad_field() {
    let mut p = good_payload(1);
    p.idx = None;
    assert!(matches!(validate(&p), Err(ValidationError::InvalidIdx)));

    let mut p = good_payload(1);
    p.name = Some(String::new());
    assert!(matches!(validate(&p), Err(ValidationError::InvalidName)));

    let mut p = good_payload(1);
    p.name = None;
    assert!(matches!(validate(&p), Err(ValidationError::InvalidName)));

    let mut p = good_payload(1);
    p.timestamp = Some("not a timestamp".to_string());
    assert!(matches!(validate(&p), Err(ValidationError::InvalidTimestamp)));

    let mut p = good_payload(1);
    p.timestamp = None;
    assert!(matches!(validate(&p), Err(ValidationError::InvalidTimestamp)));
}

#[test]
fn decode_reads_the_three_fields() {
    let raw = vec![RawMessage {
        position: Position {
            partition: 2,
            offset: 9,
        },
        payload: format!(
            "{{\"idx\":7,\"name\":\"Ann\",\"timestamp\":\"{}\",\"extra\":[1,2]}}",
            GOOD_TS
        )
        .into_bytes(),
    }];
    let out = decode_messages(&raw);
    assert_eq!(out.len(), 1);
    assert_eq!(out[0].position, Position { partition: 2, offset: 9 });
    let p = out[0].payload.as_ref().expect("payload should decode");
    assert_eq!(p.idx, Some(7));
    assert_eq!(p.name.as_deref(), Some("Ann"));
    assert_eq!(p.timestamp.as_deref(), Some(GOOD_TS));
    let rec: Record = validate(p).unwrap();
    assert_eq!(rec.idx, 7);
    assert_eq!(rec.timestamp_micros, GOOD_TS_MICROS);
}

#[test]
fn decode_flags_bad_shapes() {
    let raw = vec![
        RawMessage {
            position: Position { partition: 0, offset: 0 },
            payload: b"not json at all".to_vec(),
        },
        RawMessage {
            position: Position { partition: 0, offset: 1 },
            payload: b"{\"idx\":1.5,\"name\":\"A\",\"timestamp\":\"x\"}".to_vec(),
        },
        RawMessage {
            position: Position { partition: 0, offset: 2 },
            payload: b"{\"idx\":\"1\",\"name\":7,\"timestamp\":null}".to_vec(),
        },
    ];
    let out = decode_messages(&raw);
    assert!(out[0].payload.is_none());
    let p1 = out[1].payload.as_ref().unwrap();
    assert_eq!(p1.idx, None);
    let p2 = out[2].payload.as_ref().unwrap();
    assert_eq!(p2.idx, None);
    assert_eq!(p2.name, None);
    assert_eq!(p2.timestamp, None);
}

#[test]
fn builder_flushes_and_resets() {
    let mut b = BatchBuilder::new(2);
    assert!(!b.is_full());
    b.add(Record {
        idx: 1,
        name: "a".to_string(),
        timestamp_micros: 10,
    });
    assert!(!b.is_full());
    b.add(Record {
        idx: 2,
        name: "b".to_string(),
        timestamp_micros: 20,
    });
    assert!(b.is_full());
    let batch = b.build().unwrap();
    assert_eq!(batch.len(), 2);
    assert_eq!(batch.idx, vec![1, 2]);
    assert_eq!(batch.ts, vec![10, 20]);
    assert!(matches!(b.build(), Err(EmptyBatchError)));
}

#[test]
fn schema_pinning_refuses_a_differing_table() {
    let pinned = record_schema();
    assert!(schemas_match(&pinned, &record_schema()));

    let narrowed = TableSchema {
        columns: vec![
            ColumnSpec {
                name: "idx".to_string(),
                dtype: ColumnType::Int32,
                nullable: false,
            },
            ColumnSpec {
                name: "name".to_string(),
                dtype: ColumnType::Utf8,
                nullable: false,
            },
            ColumnSpec {
                name: "timestamp".to_string(),
                dtype: ColumnType::TimestampMicros,
                nullable: false,
            },
        ],
    };
    assert!(!schemas_match(&pinned, &narrowed));
    match TableState::open(narrowed, 0) {
        Err(TableError::SchemaMismatch) => {}
        other => panic!("expected a schema mismatch, got {:?}", other.map(|_| ())),
    }
    let t = TableState::open(record_schema(), 5).unwrap();
    assert_eq!(t.version, 5);
}

#[test]
fn round_trip_writes_every_row() {
    let mut source = SimSource::new(good_msgs(3));
    let mut table = TableState::create();
    let rep = run_ingestion(
        &mut source,
        &mut table,
        DriverConfig {
            total_budget: 3,
            batch_cap: 5,
            mode: Mode::Lenient,
        },
    );
    assert!(!rep.failed);
    assert_eq!(rep.accepted, 3);
    assert_eq!(rep.rejected, 0);
    assert_eq!(table.col_idx, vec![0, 1, 2]);
    assert_eq!(table.col_ts, vec![GOOD_TS_MICROS; 3]);
    assert_eq!(table.version, 1);
    assert_eq!(source.acked.len(), 3);
}

#[test]
fn lenient_mode_counts_rejections_and_writes_the_rest() {
    let msgs = vec![
        msg(0, Some(good_payload(0))),
        msg(1, None),
        msg(2, Some(good_payload(2))),
        msg(3, Some(ParsedPayload { idx: None, name: Some("x".into()), timestamp: Some(GOOD_TS.into()) })),
    ];
    let mut source = SimSource::new(msgs);
    let mut table = TableState::create();
    let rep = run_ingestion(
        &mut source,
        &mut table,
        DriverConfig {
            total_budget: 4,
            batch_cap: 10,
            mode: Mode::Lenient,
        },
    );
    assert!(!rep.failed);
    assert_eq!(rep.accepted, 2);
    assert_eq!(rep.rejected, 2);
    assert_eq!(table.col_idx, vec![0, 2]);
    assert_eq!(source.acked.len(), 2);
}

#[test]
fn strict_mode_fails_the_cycle_and_writes_nothing() {
    let msgs = vec![
        msg(0, Some(good_payload(0))),
        msg(1, None),
        msg(2, Some(good_payload(2))),
    ];
    let mut source = SimSource::new(msgs);
    let mut table = TableState::create();
    let rep = run_ingestion(
        &mut source,
        &mut table,
        DriverConfig {
            total_budget: 3,
            batch_cap: 10,
            mode: Mode::Strict,
        },
    );
    assert!(rep.failed);
    assert_eq!(rep.accepted, 0);
    assert_eq!(rep.rejected, 1);
    assert_eq!(table.col_idx.len(), 0);
    assert_eq!(table.version, 0);
    assert!(source.acked.is_empty());
}

#[test]
fn write_failure_acknowledges_nothing_and_redelivers() {
    let mut source = SimSource::new(good_msgs(2));
    let mut table = TableState::create();
    table.fail_next_append = true;
    let rep = run_ingestion(
        &mut source,
        &mut table,
        DriverConfig {
            total_budget: 2,
            batch_cap: 5,
            mode: Mode::Lenient,
        },
    );
    assert!(rep.failed);
    assert_eq!(rep.writes, 0);
    assert!(source.acked.is_empty());
    assert_eq!(table.col_idx.len(), 0);
    assert_eq!(table.version, 0);

    // A restart resumes at the first unacknowledged message: the same
    // positions come again.
    source.restart();
    let redelivered = source.pull(2);
    let offsets: Vec<i64> = redelivered.iter().map(|m| m.position.offset).collect();
    assert_eq!(offsets, vec![0, 1]);

    // The fault was one-shot; after another restart the run succeeds.
    source.restart();
    let rep = run_ingestion(
        &mut source,
        &mut table,
        DriverConfig {
            total_budget: 2,
            batch_cap: 5,
            mode: Mode::Lenient,
        },
    );
    assert!(!rep.failed);
    assert_eq!(rep.accepted, 2);
    assert_eq!(table.col_idx, vec![0, 1]);
    assert_eq!(source.acked.len(), 2);
}

#[test]
fn redelivered_batch_appends_duplicate_rows() {
    let mut table = TableState::create();
    let mut first = SimSource::new(good_msgs(3));
    let config = DriverConfig {
        total_budget: 3,
        batch_cap: 5,
        mode: Mode::Lenient,
    };
    run_ingestion(&mut first, &mut table, config);
    // The same positions delivered again, as after a crash before
    // acknowledgment: the rows double, the earlier ones stay untouched.
    let mut again = SimSource::new(good_msgs(3));
    run_ingestion(&mut again, &mut table, config);
    assert_eq!(table.col_idx, vec![0, 1, 2, 0, 1, 2]);
    assert_eq!(table.version, 2);
}

#[test]
fn partial_final_batch_is_flushed() {
    let mut source = SimSource::new(good_msgs(9));
    let mut table = TableState::create();
    let rep = run_ingestion(
        &mut source,
        &mut table,
        DriverConfig {
            total_budget: 7,
            batch_cap: 5,
            mode: Mode::Lenient,
        },
    );
    assert!(!rep.failed);
    assert_eq!(rep.cycles, 2);
    assert_eq!(rep.writes, 2);
    assert_eq!(rep.accepted, 7);
    assert_eq!(table.col_idx.len(), 7);
    assert_eq!(table.version, 2);
    assert_eq!(source.acked.len(), 7);
}

#[test]
fn all_invalid_window_is_a_no_op_cycle() {
    let msgs = vec![msg(0, None), msg(1, None)];
    let mut source = SimSource::new(msgs);
    let mut table = TableState::create();
    let rep = run_ingestion(
        &mut source,
        &mut table,
        DriverConfig {
            total_budget: 2,
            batch_cap: 5,
            mode: Mode::Lenient,
        },
    );
    assert!(!rep.failed);
    assert_eq!(rep.accepted, 0);
    assert_eq!(rep.rejected, 2);
    assert_eq!(rep.writes, 0);
    assert_eq!(table.version, 0);
    assert!(source.acked.is_empty());
}

#[test]
fn strict_mode_passes_a_clean_window() {
    let mut source = SimSource::new(good_msgs(3));
    let mut table = TableState::create();
    let rep = run_ingestion(
        &mut source,
        &mut table,
        DriverConfig {
            total_budget: 3,
            batch_cap: 5,
            mode: Mode::Strict,
        },
    );
    assert!(!rep.failed);
    assert_eq!(rep.accepted, 3);
    assert_eq!(table.col_idx, vec![0, 1, 2]);
    assert_eq!(source.acked.len(), 3);
}
