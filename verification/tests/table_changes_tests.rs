use delta_kernel::expressions::{Expression, Predicate};
use delta_kernel::scalars::Scalar;
use delta_kernel::schema::{DataType, StructField, StructType};
use delta_kernel::table_changes::{
    ColumnType, PhysicalPredicate, TableChanges, TableChangesScanBuilder,
};

fn table_with_cdf() -> TableChanges {
    // the fixture table: a regular `part` column and an `id` column
    TableChanges::new(
        StructType::new(vec![
            StructField::nullable("part", DataType::integer()),
            StructField::nullable("id", DataType::integer()),
        ]),
        vec![],
        "./tests/data/table-with-cdf".to_string(),
        0,
        1,
    )
}

fn assert_selected(c: &ColumnType, expected: &str) {
    match c {
        ColumnType::Selected(name) => assert_eq!(name, expected),
        other => panic!("expected a selected column, got {other:?}"),
    }
}

#[test]
fn simple_table_changes_scan_builder() {
    let table_changes = table_with_cdf();

    let scan = table_changes.into_scan_builder().build().unwrap();
    // Note that this table is not partitioned. `part` is a regular field
    assert_eq!(scan.all_fields.len(), 5);
    assert_selected(&scan.all_fields[0], "part");
    assert_selected(&scan.all_fields[1], "id");
    assert_selected(&scan.all_fields[2], "_change_type");
    assert_selected(&scan.all_fields[3], "_commit_version");
    assert_selected(&scan.all_fields[4], "_commit_timestamp");
    assert!(matches!(
        scan.physical_predicate,
        PhysicalPredicate::Unfiltered
    ));
    // generated columns are not read physically
    assert_eq!(
        *scan.physical_schema(),
        StructType::new(vec![
            StructField::nullable("part", DataType::integer()),
            StructField::nullable("id", DataType::integer()),
        ])
    );
}

#[test]
fn projected_and_filtered_table_changes_scan_builder() {
    let table_changes = table_with_cdf();

    let schema = table_changes
        .schema()
        .project(&vec!["id".to_string(), "_commit_version".to_string()])
        .unwrap();
    let predicate = Predicate::gt(Expression::column("id"), Expression::literal(Scalar::from(10)));
    let scan = TableChangesScanBuilder::new(table_changes)
        .with_schema(Some(schema))
        .with_predicate(Some(predicate))
        .build()
        .unwrap();
    assert_eq!(scan.all_fields.len(), 2);
    assert_selected(&scan.all_fields[0], "id");
    assert_selected(&scan.all_fields[1], "_commit_version");
    assert_eq!(
        *scan.logical_schema(),
        StructType::new(vec![
            StructField::nullable("id", DataType::integer()),
            StructField::not_null("_commit_version", DataType::long()),
        ])
    );
    match &scan.physical_predicate {
        PhysicalPredicate::Filtered(_, schema) => {
            assert_eq!(
                *schema,
                StructType::new(vec![StructField::nullable("id", DataType::integer())])
            );
        }
        other => panic!("expected a filtered predicate, got {other:?}"),
    }
}

#[test]
fn cdf_column_predicates_are_rejected() {
    let table_changes = table_with_cdf();
    let predicate = Predicate::gt(
        Expression::column("_commit_version"),
        Expression::literal(Scalar::from(0i64)),
    );
    let r = table_changes
        .into_scan_builder()
        .with_predicate(Some(predicate))
        .build();
    assert!(r.is_err());
}

#[test]
fn statically_false_predicate_skips_all() {
    let table_changes = table_with_cdf();
    let predicate = Predicate::literal(false);
    let scan = table_changes
        .into_scan_builder()
        .with_predicate(Some(predicate))
        .build()
        .unwrap();
    assert!(matches!(
        scan.physical_predicate,
        PhysicalPredicate::StaticSkipAll
    ));
}

#[test]
fn partition_columns_classify_by_index() {
    let table_changes = TableChanges::new(
        StructType::new(vec![
            StructField::nullable("part", DataType::string()),
            StructField::nullable("id", DataType::integer()),
        ]),
        vec!["part".to_string()],
        "/tmp/t".to_string(),
        0,
        1,
    );
    let scan = table_changes.into_scan_builder().build().unwrap();
    match &scan.all_fields[0] {
        ColumnType::Partition(i) => assert_eq!(*i, 0),
        other => panic!("expected a partition column, got {other:?}"),
    }
    assert_selected(&scan.all_fields[1], "id");
    // the partition column is not read physically
    assert_eq!(
        *scan.physical_schema(),
        StructType::new(vec![StructField::nullable("id", DataType::integer())])
    );
}
