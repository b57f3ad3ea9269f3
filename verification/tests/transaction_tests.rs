use delta_kernel::engine::{EngineBatch, EngineColumn, JsonHandler};
use delta_kernel::error::Error;
use delta_kernel::scalars::{MapData, Scalar};
use delta_kernel::schema::{DataType, MapType, StructField, StructType};
use delta_kernel::snapshot::Snapshot;
use delta_kernel::transaction::{
    add_files_schema, generate_adds, generate_commit_info, CommitResult, Transaction,
};

fn string_map_type() -> MapType {
    MapType::new(DataType::string(), DataType::string(), true)
}

fn map_scalar(entries: Vec<(&str, &str)>) -> Scalar {
    let pairs = entries
        .into_iter()
        .map(|(k, v)| (Scalar::from(k), Scalar::from(v)))
        .collect();
    Scalar::Mapping(MapData::try_new(string_map_type(), pairs).unwrap())
}

fn commit_info_batch(value: Scalar) -> EngineBatch {
    EngineBatch {
        num_rows: 1,
        columns: vec![EngineColumn {
            name: "engineCommitInfo".to_string(),
            values: vec![value],
        }],
    }
}

#[test]
fn test_generate_commit_info() {
    let batch = commit_info_batch(map_scalar(vec![("engineInfo", "default engine")]));
    let line = generate_commit_info(Some("test operation"), 123456789, &batch).unwrap();
    let expected = "{\"commitInfo\":{\"timestamp\":123456789,\"operation\":\"test operation\",\"kernelVersion\":\"v0.1.0\",\"operationParameters\":{},\"engineCommitInfo\":{\"engineInfo\":\"default engine\"}}}";
    assert_eq!(line, expected);
}

#[test]
fn test_commit_info_with_multiple_columns() {
    let batch = EngineBatch {
        num_rows: 1,
        columns: vec![
            EngineColumn {
                name: "engineCommitInfo".to_string(),
                values: vec![map_scalar(vec![("engineInfo", "default engine")])],
            },
            EngineColumn {
                name: "operation".to_string(),
                values: vec![Scalar::from("some_string")],
            },
        ],
    };
    let line = generate_commit_info(Some("test operation"), 123456789, &batch).unwrap();
    let expected = "{\"commitInfo\":{\"timestamp\":123456789,\"operation\":\"test operation\",\"kernelVersion\":\"v0.1.0\",\"operationParameters\":{},\"engineCommitInfo\":{\"engineInfo\":\"default engine\"}}}";
    assert_eq!(line, expected);
}

#[test]
fn test_invalid_commit_info_missing_column() {
    let batch = EngineBatch {
        num_rows: 1,
        columns: vec![EngineColumn {
            name: "some_column_name".to_string(),
            values: vec![Scalar::Null(DataType::string())],
        }],
    };
    let e = generate_commit_info(Some("test operation"), 123456789, &batch).unwrap_err();
    assert!(
        matches!(e, Error::MissingColumn(_)),
        "expected missing column error, got {e:?}"
    );
}

#[test]
fn test_invalid_commit_info_invalid_column_type() {
    let batch = EngineBatch {
        num_rows: 1,
        columns: vec![EngineColumn {
            name: "engineCommitInfo".to_string(),
            values: vec![Scalar::Null(DataType::string())],
        }],
    };
    let e = generate_commit_info(Some("test operation"), 123456789, &batch).unwrap_err();
    assert!(
        matches!(e, Error::Schema(_)),
        "expected schema error, got {e:?}"
    );
}

#[test]
fn test_empty_commit_info() {
    // a valid empty map writes an empty object; a null map omits the field
    let with_empty_map = commit_info_batch(map_scalar(vec![]));
    let line = generate_commit_info(Some("test operation"), 123456, &with_empty_map).unwrap();
    let expected = "{\"commitInfo\":{\"timestamp\":123456,\"operation\":\"test operation\",\"kernelVersion\":\"v0.1.0\",\"operationParameters\":{},\"engineCommitInfo\":{}}}";
    assert_eq!(line, expected);

    let null_map = commit_info_batch(Scalar::Null(DataType::Mapping(Box::new(string_map_type()))));
    let line = generate_commit_info(Some("test operation"), 123456, &null_map).unwrap();
    let expected = "{\"commitInfo\":{\"timestamp\":123456,\"operation\":\"test operation\",\"kernelVersion\":\"v0.1.0\",\"operationParameters\":{}}}";
    assert_eq!(line, expected);
}

#[test]
fn test_add_files_schema() {
    let schema = add_files_schema();
    let expected = StructType::new(vec![
        StructField::not_null("path", DataType::string()),
        StructField::not_null(
            "partitionValues",
            DataType::Mapping(Box::new(MapType::new(
                DataType::string(),
                DataType::string(),
                true,
            ))),
        ),
        StructField::not_null("size", DataType::long()),
        StructField::not_null("modificationTime", DataType::long()),
        StructField::not_null("dataChange", DataType::boolean()),
    ]);
    assert_eq!(schema, expected);
}

fn add_files_batch() -> EngineBatch {
    EngineBatch {
        num_rows: 2,
        columns: vec![
            EngineColumn {
                name: "path".to_string(),
                values: vec![Scalar::from("a.parquet"), Scalar::from("b.parquet")],
            },
            EngineColumn {
                name: "partitionValues".to_string(),
                values: vec![map_scalar(vec![("date", "2017-12-10")]), map_scalar(vec![])],
            },
            EngineColumn {
                name: "size".to_string(),
                values: vec![Scalar::Long(100), Scalar::Long(200)],
            },
            EngineColumn {
                name: "modificationTime".to_string(),
                values: vec![Scalar::Long(5), Scalar::Long(6)],
            },
            EngineColumn {
                name: "dataChange".to_string(),
                values: vec![Scalar::Boolean(true), Scalar::Boolean(false)],
            },
        ],
    }
}

#[test]
fn test_generate_adds() {
    let lines = generate_adds(&vec![add_files_batch()]).unwrap();
    assert_eq!(lines.len(), 2);
    assert_eq!(
        lines[0],
        "{\"add\":{\"path\":\"a.parquet\",\"partitionValues\":{\"date\":\"2017-12-10\"},\"size\":100,\"modificationTime\":5,\"dataChange\":true}}"
    );
    assert_eq!(
        lines[1],
        "{\"add\":{\"path\":\"b.parquet\",\"partitionValues\":{},\"size\":200,\"modificationTime\":6,\"dataChange\":false}}"
    );

    // a malformed batch is rejected
    let bad = EngineBatch {
        num_rows: 1,
        columns: vec![EngineColumn {
            name: "path".to_string(),
            values: vec![Scalar::Long(1)],
        }],
    };
    assert!(matches!(generate_adds(&vec![bad]), Err(Error::Schema(_))));
}

struct RecordingWriter {
    calls: usize,
    last_path: Option<String>,
    last_lines: Vec<String>,
    fail_with: Option<Error>,
}

impl RecordingWriter {
    fn new() -> Self {
        RecordingWriter {
            calls: 0,
            last_path: None,
            last_lines: vec![],
            fail_with: None,
        }
    }
}

impl JsonHandler for RecordingWriter {
    fn write_json_file(
        &mut self,
        path: &String,
        lines: &Vec<String>,
        _overwrite: bool,
    ) -> Result<(), Error> {
        self.calls += 1;
        self.last_path = Some(path.clone());
        self.last_lines = lines.clone();
        match self.fail_with.take() {
            Some(e) => Err(e),
            None => Ok(()),
        }
    }
}

fn test_snapshot() -> Snapshot {
    Snapshot {
        version: 4,
        table_root: "/tmp/table".to_string(),
        schema: StructType::new(vec![
            StructField::nullable("id", DataType::integer()),
            StructField::nullable("part", DataType::string()),
        ]),
        partition_columns: vec!["part".to_string()],
        supports_writes: true,
    }
}

#[test]
fn test_commit_writes_one_file_at_next_version() {
    let txn = Transaction::try_new(test_snapshot())
        .unwrap()
        .with_operation("test".to_string())
        .with_commit_info(commit_info_batch(map_scalar(vec![])));
    let mut writer = RecordingWriter::new();
    match txn.commit(&mut writer).unwrap() {
        CommitResult::Committed(v) => assert_eq!(v, 5),
        r => panic!("expected committed, got {r:?}"),
    }
    assert_eq!(writer.calls, 1);
    assert_eq!(
        writer.last_path.as_deref(),
        Some("/tmp/table/_delta_log/00000000000000000005.json")
    );
    assert_eq!(writer.last_lines.len(), 1);
    assert!(writer.last_lines[0].starts_with("{\"commitInfo\":{\"timestamp\":"));
}

#[test]
fn test_commit_conflict_returns_transaction() {
    let txn = Transaction::try_new(test_snapshot())
        .unwrap()
        .with_commit_info(commit_info_batch(map_scalar(vec![])));
    let mut writer = RecordingWriter::new();
    writer.fail_with = Some(Error::FileAlreadyExists(
        "/tmp/table/_delta_log/00000000000000000005.json".to_string(),
    ));
    match txn.commit(&mut writer).unwrap() {
        CommitResult::Conflict(t, v) => {
            assert_eq!(v, 5);
            assert_eq!(t.read_snapshot.version, 4);
        }
        r => panic!("expected conflict, got {r:?}"),
    }
    assert_eq!(writer.calls, 1);
}

#[test]
fn test_duplicate_app_id_commit() {
    let txn = Transaction::try_new(test_snapshot())
        .unwrap()
        .with_commit_info(commit_info_batch(map_scalar(vec![])))
        .with_transaction_id("app one".to_string(), 1)
        .with_transaction_id("app one".to_string(), 2);
    let mut writer = RecordingWriter::new();
    let e = txn.commit(&mut writer).unwrap_err();
    match e {
        Error::Generic(msg) => {
            assert_eq!(msg, "app_id app one already exists in transaction");
        }
        other => panic!("expected generic error, got {other:?}"),
    }
    // nothing was written by this attempt
    assert_eq!(writer.calls, 0);
}

#[test]
fn test_commit_includes_adds_and_txns() {
    let mut txn = Transaction::try_new(test_snapshot())
        .unwrap()
        .with_operation("write".to_string())
        .with_commit_info(commit_info_batch(map_scalar(vec![])))
        .with_transaction_id("writer-app".to_string(), 7);
    txn.add_files(add_files_batch());
    let ts = txn.commit_timestamp;
    let mut writer = RecordingWriter::new();
    match txn.commit(&mut writer).unwrap() {
        CommitResult::Committed(v) => assert_eq!(v, 5),
        r => panic!("expected committed, got {r:?}"),
    }
    assert_eq!(writer.last_lines.len(), 4);
    assert!(writer.last_lines[0].starts_with("{\"commitInfo\":"));
    assert!(writer.last_lines[1].starts_with("{\"add\":{\"path\":\"a.parquet\""));
    assert!(writer.last_lines[2].starts_with("{\"add\":{\"path\":\"b.parquet\""));
    assert_eq!(
        writer.last_lines[3],
        format!(
            "{{\"txn\":{{\"appId\":\"writer-app\",\"version\":7,\"lastUpdated\":{ts}}}}}"
        )
    );
}

#[test]
fn test_prepare_commit_renders_actions_in_order() {
    let mut txn = Transaction::try_new(test_snapshot())
        .unwrap()
        .with_operation("write".to_string())
        .with_commit_info(commit_info_batch(map_scalar(vec![])))
        .with_transaction_id("writer-app".to_string(), 7);
    txn.add_files(add_files_batch());
    let pc = txn.prepare_commit().unwrap();
    assert_eq!(pc.version, 5);
    assert_eq!(pc.path, "/tmp/table/_delta_log/00000000000000000005.json");
    assert_eq!(pc.actions.len(), 4);
    assert!(pc.actions[0].starts_with("{\"commitInfo\":"));
    assert!(pc.actions[1].starts_with("{\"add\":{\"path\":\"a.parquet\""));
    assert!(pc.actions[2].starts_with("{\"add\":{\"path\":\"b.parquet\""));
    assert!(pc.actions[3].starts_with("{\"txn\":{\"appId\":\"writer-app\""));
}

#[test]
fn test_try_new_rejects_unwritable_table() {
    let mut snapshot = test_snapshot();
    snapshot.supports_writes = false;
    assert!(Transaction::try_new(snapshot).is_err());
}

#[test]
fn test_generate_logical_to_physical() {
    let txn = Transaction::try_new(test_snapshot()).unwrap();
    let expr = txn.generate_logical_to_physical();
    match expr {
        delta_kernel::expressions::Expression::Struct(children) => {
            assert_eq!(children.len(), 1);
            match &children[0] {
                delta_kernel::expressions::Expression::Column(name) => assert_eq!(name, "id"),
                e => panic!("expected a column, got {e:?}"),
            }
        }
        e => panic!("expected a struct expression, got {e:?}"),
    }
}
