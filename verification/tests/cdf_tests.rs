use delta_kernel::deletion_vectors::DeletionVectorDescriptor;
use delta_kernel::error::Error;
use delta_kernel::expressions::{Expression, Predicate};
use delta_kernel::scan::{DvInfo, EvaluationHandler, StorageHandler};
use delta_kernel::schema::{DataType, StructField, StructType};
use delta_kernel::table_changes::{
    resolve_scan_file_dv, CdfScanFile, CdfScanFileType, Engine, LogReplay, TableChanges,
};
use delta_kernel::engine::{EngineBatch, EngineColumn};
use delta_kernel::scalars::{MapData, Scalar};
use delta_kernel::schema::MapType;

/// A fake engine whose batches are plain row counts.
struct CountingEngine {
    batch_lens: Vec<usize>,
    dv_bytes: std::collections::HashMap<String, Vec<u8>>,
}

impl EvaluationHandler for CountingEngine {
    type Data = usize;

    fn data_len(&self, data: &usize) -> usize {
        *data
    }

    fn evaluate_expression(
        &self,
        _input_schema: &StructType,
        _expression: &Expression,
        _output_schema: &StructType,
        data: usize,
    ) -> Result<usize, Error> {
        Ok(data)
    }
}

impl StorageHandler for CountingEngine {
    fn read_dv_bytes(
        &mut self,
        dv: &DeletionVectorDescriptor,
        _table_root: &str,
    ) -> Result<Vec<u8>, Error> {
        match self.dv_bytes.get(&dv.path_or_inline_dv) {
            Some(bytes) => Ok(bytes.clone()),
            None => Err(Error::Generic(format!(
                "no deletion vector at {}",
                dv.path_or_inline_dv
            ))),
        }
    }
}

impl Engine for CountingEngine {
    fn read_parquet_file(
        &mut self,
        _path: &String,
        _physical_schema: &StructType,
    ) -> Result<Vec<usize>, Error> {
        Ok(self.batch_lens.clone())
    }
}

struct FixedReplay {
    files: Vec<CdfScanFile>,
}

impl LogReplay for FixedReplay {
    fn replay(
        &mut self,
        _table_changes: &TableChanges,
        _predicate: Option<&Predicate>,
    ) -> Result<Vec<CdfScanFile>, Error> {
        let mut out = vec![];
        std::mem::swap(&mut out, &mut self.files);
        Ok(out)
    }
}

fn serialize_treemap(values: &[u64]) -> Vec<u8> {
    let mut tm = roaring::RoaringTreemap::new();
    for v in values {
        tm.insert(*v);
    }
    let mut bytes = vec![];
    tm.serialize_into(&mut bytes).unwrap();
    bytes
}

fn descriptor(name: &str) -> DeletionVectorDescriptor {
    DeletionVectorDescriptor {
        storage_type: "p".to_string(),
        path_or_inline_dv: name.to_string(),
        offset: None,
        size_in_bytes: 0,
        cardinality: 0,
    }
}

#[test]
fn resolved_pair_selects_changed_rows() {
    // remove side deleted rows {0, 2}; add side deletes {2, 4}: the rows
    // whose membership changed are {0, 4}
    let mut engine = CountingEngine {
        batch_lens: vec![],
        dv_bytes: std::collections::HashMap::new(),
    };
    engine
        .dv_bytes
        .insert("rm".to_string(), serialize_treemap(&[0, 2]));
    engine
        .dv_bytes
        .insert("add".to_string(), serialize_treemap(&[2, 4]));
    let file = CdfScanFile {
        scan_type: CdfScanFileType::Add,
        path: "f.parquet".to_string(),
        dv_info: DvInfo {
            deletion_vector: Some(descriptor("add")),
        },
        remove_dv: Some(descriptor("rm")),
        partition_values: vec![],
        commit_version: 1,
        commit_timestamp: 1000,
    };
    let resolved = resolve_scan_file_dv(&mut engine, "/t", file).unwrap();
    let sv = resolved.selection_vector.unwrap();
    assert_eq!(sv, vec![true, false, false, false, true]);
}

#[test]
fn unpaired_file_keeps_undeleted_rows() {
    let mut engine = CountingEngine {
        batch_lens: vec![],
        dv_bytes: std::collections::HashMap::new(),
    };
    engine
        .dv_bytes
        .insert("only".to_string(), serialize_treemap(&[1]));
    let file = CdfScanFile {
        scan_type: CdfScanFileType::Add,
        path: "f.parquet".to_string(),
        dv_info: DvInfo {
            deletion_vector: Some(descriptor("only")),
        },
        remove_dv: None,
        partition_values: vec![],
        commit_version: 1,
        commit_timestamp: 1000,
    };
    let resolved = resolve_scan_file_dv(&mut engine, "/t", file).unwrap();
    assert_eq!(resolved.selection_vector.unwrap(), vec![true, false]);
}

#[test]
fn execute_splits_selection_vector_across_batches() {
    // one resolved pair with changed rows {1}: selection vector [false, true];
    // two batches of 2 rows each: masks [false, true] then padding [false, false]
    let mut engine = CountingEngine {
        batch_lens: vec![2, 2],
        dv_bytes: std::collections::HashMap::new(),
    };
    engine
        .dv_bytes
        .insert("rm".to_string(), serialize_treemap(&[1]));
    engine
        .dv_bytes
        .insert("add".to_string(), serialize_treemap(&[]));
    let file = CdfScanFile {
        scan_type: CdfScanFileType::Add,
        path: "f.parquet".to_string(),
        dv_info: DvInfo {
            deletion_vector: Some(descriptor("add")),
        },
        remove_dv: Some(descriptor("rm")),
        partition_values: vec![],
        commit_version: 3,
        commit_timestamp: 1000,
    };
    let mut replay = FixedReplay { files: vec![file] };
    let table_changes = TableChanges::new(
        StructType::new(vec![StructField::nullable("id", DataType::integer())]),
        vec![],
        "/t".to_string(),
        0,
        3,
    );
    let scan = table_changes.into_scan_builder().build().unwrap();
    let results = scan.execute(&mut engine, &mut replay).unwrap();
    assert_eq!(results.len(), 2);
    // the concatenation of the masks is the resolved vector padded with
    // false to the four rows read
    assert_eq!(
        results[0].as_ref().unwrap().raw_mask,
        Some(vec![false, true])
    );
    assert_eq!(
        results[1].as_ref().unwrap().raw_mask,
        Some(vec![false, false])
    );
}

#[test]
fn one_bad_file_does_not_poison_the_scan() {
    // the first file's deletion vector cannot be read; it yields one error
    // item and the second file is still read
    let mut engine = CountingEngine {
        batch_lens: vec![1],
        dv_bytes: std::collections::HashMap::new(),
    };
    let bad = CdfScanFile {
        scan_type: CdfScanFileType::Add,
        path: "bad.parquet".to_string(),
        dv_info: DvInfo {
            deletion_vector: None,
        },
        remove_dv: Some(descriptor("missing")),
        partition_values: vec![],
        commit_version: 1,
        commit_timestamp: 1000,
    };
    let good = CdfScanFile {
        scan_type: CdfScanFileType::Add,
        path: "good.parquet".to_string(),
        dv_info: DvInfo {
            deletion_vector: None,
        },
        remove_dv: None,
        partition_values: vec![],
        commit_version: 1,
        commit_timestamp: 1000,
    };
    let mut replay = FixedReplay {
        files: vec![bad, good],
    };
    let table_changes = TableChanges::new(
        StructType::new(vec![StructField::nullable("id", DataType::integer())]),
        vec![],
        "/t".to_string(),
        0,
        1,
    );
    let scan = table_changes.into_scan_builder().build().unwrap();
    let results = scan.execute(&mut engine, &mut replay).unwrap();
    assert_eq!(results.len(), 2);
    assert!(results[0].is_err());
    let ok = results[1].as_ref().unwrap();
    assert!(ok.raw_mask.is_none());
}

#[test]
fn static_skip_reads_nothing() {
    let mut engine = CountingEngine {
        batch_lens: vec![2],
        dv_bytes: std::collections::HashMap::new(),
    };
    let mut replay = FixedReplay { files: vec![] };
    let table_changes = TableChanges::new(
        StructType::new(vec![StructField::nullable("id", DataType::integer())]),
        vec![],
        "/t".to_string(),
        0,
        1,
    );
    let scan = table_changes
        .into_scan_builder()
        .with_predicate(Some(Predicate::literal(false)))
        .build()
        .unwrap();
    let results = scan.execute(&mut engine, &mut replay).unwrap();
    assert!(results.is_empty());
}

#[test]
fn json_escaping_in_commit_info() {
    // a wrapper-backed value with characters needing escapes renders escaped
    let md = MapData::try_new(
        MapType::new(DataType::string(), DataType::string(), true),
        vec![(
            Scalar::from("quote\"and\\slash"),
            Scalar::from("line\nbreak"),
        )],
    )
    .unwrap();
    let batch = EngineBatch {
        num_rows: 1,
        columns: vec![EngineColumn {
            name: "engineCommitInfo".to_string(),
            values: vec![Scalar::Mapping(md)],
        }],
    };
    let line =
        delta_kernel::transaction::generate_commit_info(Some("op"), 1, &batch).unwrap();
    assert!(line.contains("\"quote\\\"and\\\\slash\":\"line\\nbreak\""));
}
