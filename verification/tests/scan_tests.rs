use delta_kernel::deletion_vectors::{split_vector, DeletionVectorDescriptor};
use delta_kernel::error::Error;
use delta_kernel::scan::{DvInfo, ScanFileRow, ScanMetadata, StorageHandler};

fn simple_descriptor() -> DeletionVectorDescriptor {
    DeletionVectorDescriptor {
        storage_type: "u".to_string(),
        path_or_inline_dv: "vBn[lx{q8@P<9BNH/isA".to_string(),
        offset: Some(1),
        size_in_bytes: 36,
        cardinality: 2,
    }
}

#[test]
fn test_simple_visit_scan_metadata() {
    let metadata = ScanMetadata {
        rows: vec![
            ScanFileRow {
                path: Some(
                    "part-00000-fae5310a-a37d-4e51-827b-c3d5516560ca-c000.snappy.parquet"
                        .to_string(),
                ),
                size: 635,
                stats_json: Some("{\"numRecords\":10}".to_string()),
                deletion_vector: Some(simple_descriptor()),
                partition_values: vec![("date".to_string(), "2017-12-10".to_string())],
            },
            ScanFileRow {
                path: Some("part-00001.snappy.parquet".to_string()),
                size: 9,
                stats_json: None,
                deletion_vector: None,
                partition_values: vec![],
            },
        ],
        selection_vector: vec![true, false],
        scan_file_transforms: vec![None, None],
    };
    let files = metadata.visit_scan_files();
    assert_eq!(files.len(), 1);
    let f = &files[0];
    assert_eq!(
        f.path,
        "part-00000-fae5310a-a37d-4e51-827b-c3d5516560ca-c000.snappy.parquet"
    );
    assert_eq!(f.size, 635);
    assert!(f.stats.is_some());
    assert_eq!(f.stats.as_ref().unwrap().num_records, 10);
    let part_val = f
        .partition_values
        .iter()
        .find(|(k, _)| k == "date")
        .map(|(_, v)| v.clone());
    assert_eq!(part_val, Some("2017-12-10".to_string()));
    assert!(f
        .partition_values
        .iter()
        .find(|(k, _)| k == "non-existent")
        .is_none());
    assert!(f.dv_info.deletion_vector.is_some());
    let dv = f.dv_info.deletion_vector.as_ref().unwrap();
    assert_eq!(dv.unique_id(), "uvBn[lx{q8@P<9BNH/isA@1");
    assert!(f.transform.is_none());
}

#[test]
fn test_visit_skips_pathless_rows() {
    let metadata = ScanMetadata {
        rows: vec![ScanFileRow {
            path: None,
            size: 0,
            stats_json: Some("not json".to_string()),
            deletion_vector: None,
            partition_values: vec![],
        }],
        selection_vector: vec![true],
        scan_file_transforms: vec![],
    };
    assert_eq!(metadata.visit_scan_files().len(), 0);
}

#[test]
fn test_invalid_stats_are_dropped() {
    let metadata = ScanMetadata {
        rows: vec![ScanFileRow {
            path: Some("f.parquet".to_string()),
            size: 1,
            stats_json: Some("{invalid json".to_string()),
            deletion_vector: None,
            partition_values: vec![],
        }],
        selection_vector: vec![true],
        scan_file_transforms: vec![],
    };
    let files = metadata.visit_scan_files();
    assert_eq!(files.len(), 1);
    assert!(files[0].stats.is_none());
}

struct MapStorage {
    bytes: Vec<u8>,
}

impl StorageHandler for MapStorage {
    fn read_dv_bytes(
        &mut self,
        _dv: &DeletionVectorDescriptor,
        _table_root: &str,
    ) -> Result<Vec<u8>, Error> {
        Ok(self.bytes.clone())
    }
}

fn serialize_treemap(values: &[u64]) -> Vec<u8> {
    let mut tm = roaring::RoaringTreemap::new();
    for v in values {
        tm.insert(*v);
    }
    let mut bytes = vec![];
    tm.serialize_into(&mut bytes).unwrap();
    bytes
}

#[test]
fn test_get_selection_vector_marks_deleted_rows() {
    let dv_info = DvInfo {
        deletion_vector: Some(simple_descriptor()),
    };
    let mut storage = MapStorage {
        bytes: serialize_treemap(&[0, 9]),
    };
    let sv = dv_info
        .get_selection_vector(&mut storage, "/tmp/table")
        .unwrap()
        .unwrap();
    assert_eq!(sv.len(), 10);
    assert!(!sv[0]);
    assert!(!sv[9]);
    for i in 1..9 {
        assert!(sv[i], "row {i} should be kept");
    }

    let none_info = DvInfo {
        deletion_vector: None,
    };
    assert!(none_info
        .get_selection_vector(&mut storage, "/tmp/table")
        .unwrap()
        .is_none());
}

#[test]
fn test_get_row_indexes_sorted() {
    let dv_info = DvInfo {
        deletion_vector: Some(simple_descriptor()),
    };
    let mut storage = MapStorage {
        bytes: serialize_treemap(&[7, 3, 11]),
    };
    let idx = dv_info
        .get_row_indexes(&mut storage, "/tmp/table")
        .unwrap()
        .unwrap();
    assert_eq!(idx, vec![3, 7, 11]);
}

#[test]
fn test_split_vector_conservation() {
    // splitting a resolved vector over batches and concatenating the
    // prefixes reproduces the vector, padded to the total length read
    let sv = vec![true, false, true];
    let (mask1, rest) = split_vector(Some(sv), 2, Some(true));
    assert_eq!(mask1, Some(vec![true, false]));
    let (mask2, rest) = split_vector(rest, 3, Some(true));
    assert_eq!(mask2, Some(vec![true, true, true]));
    let (mask3, _) = split_vector(rest, 1, Some(false));
    assert_eq!(mask3, Some(vec![false]));

    let mut joined = mask1.unwrap();
    joined.extend(mask2.unwrap());
    // padded with true for the unpaired case over the first five rows
    assert_eq!(joined, vec![true, false, true, true, true]);

    let (none_mask, none_rest) = split_vector(None, 4, None);
    assert!(none_mask.is_none());
    assert!(none_rest.is_none());
}
