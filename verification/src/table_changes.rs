//! Change Data Feed scan planning: projecting the logical schema, splitting
//! columns into read, partition and generated columns, translating the
//! predicate, and reading change files with per-batch selection vectors.
use vstd::prelude::*;

verus! {

use crate::deletion_vectors::{
    changed_treemap_to_bools,
    lemma_split_step,
    split_mask,
    split_rest,
    split_vector,
    treemap_deserialize,
    treemap_empty,
    treemap_max,
    treemap_xor,
    DeletionVectorDescriptor,
};
use crate::error::Error;
use crate::expressions::{clone_predicate, Expression, ExpressionV, Predicate, PredicateV};
use crate::kernel_predicates::{
    spec_eval_sql,
    DefaultKernelPredicateEvaluator,
    EmptyColumnResolver,
};
use crate::scalars::{Scalar, ScalarV};
use crate::scan::{DvInfo, EvaluationHandler, ScanResult, StorageHandler};
use crate::schema::{
    clone_struct_type,
    DataType,
    FieldV,
    PrimitiveType,
    StructField,
    StructType,
};

/// How one logical column is produced: read from the data file under a
/// physical name, or materialized from the partition values at a schema
/// index.
#[derive(Debug)]
pub enum ColumnType {
    Selected(String),
    Partition(usize),
}

/// The value of a column classification.
pub enum ColumnTypeV {
    Selected(Seq<char>),
    Partition(int),
}

/// The view of a classification.
pub open spec fn column_type_view(c: ColumnType) -> ColumnTypeV {
    match c {
        ColumnType::Selected(s) => ColumnTypeV::Selected(s@),
        ColumnType::Partition(i) => ColumnTypeV::Partition(i as int),
    }
}

/// The views of a classification vector.
pub open spec fn column_types_view(cs: Seq<ColumnType>) -> Seq<ColumnTypeV> {
    cs.map(|i: int, c: ColumnType| column_type_view(c))
}

/// The translated predicate of a scan: absent, statically false for every
/// row, or a predicate over the physical columns it needs.
#[derive(Debug)]
pub enum PhysicalPredicate {
    /// A predicate restricted to the physical columns it references.
    Filtered(Predicate, StructType),
    /// The predicate can never be satisfied; nothing need be read.
    StaticSkipAll,
    /// No predicate was given.
    Unfiltered,
}

/// Whether a predicate references a column name.
pub open spec fn pred_references(p: PredicateV, name: Seq<char>) -> bool
    decreases p,
{
    match p {
        PredicateV::BoolExpr(e) => expr_references(e, name),
        PredicateV::IsNull(e) => expr_references(e, name),
        PredicateV::Not(q) => pred_references(*q, name),
        PredicateV::Binary(_, l, r) => expr_references(l, name) || expr_references(r, name),
        PredicateV::Junction(_, children) => preds_reference(children, name),
    }
}

/// Whether an expression references a column name.
pub open spec fn expr_references(e: ExpressionV, name: Seq<char>) -> bool
    decreases e,
{
    match e {
        ExpressionV::Literal(_) => false,
        ExpressionV::Column(c) => c == name,
        ExpressionV::Struct(children) => exprs_reference(children, name),
        ExpressionV::Binary(_, l, r) => expr_references(*l, name) || expr_references(*r, name),
    }
}

/// Whether any of a list of predicates references a column name.
pub open spec fn preds_reference(children: Seq<PredicateV>, name: Seq<char>) -> bool
    decreases children,
{
    if children.len() == 0 {
        false
    } else {
        preds_reference(children.drop_last(), name) || pred_references(children.last(), name)
    }
}

/// Whether any of a list of expressions references a column name.
pub open spec fn exprs_reference(children: Seq<ExpressionV>, name: Seq<char>) -> bool
    decreases children,
{
    if children.len() == 0 {
        false
    } else {
        exprs_reference(children.drop_last(), name) || expr_references(children.last(), name)
    }
}

/// Decides whether a predicate references a column name.
pub fn pred_refs(p: &Predicate, name: &str) -> (r: bool)
    ensures
        r == pred_references(p@, name@),
    decreases *p,
{
    match p {
        Predicate::BoolExpr(e) => expr_refs(e, name),
        Predicate::IsNull(e) => expr_refs(e, name),
        Predicate::Not(q) => pred_refs(q, name),
        Predicate::Binary(_, l, rt) => expr_refs(l, name) || expr_refs(rt, name),
        Predicate::Junction(op, children) => {
            proof {
                crate::expressions::lemma_preds_view(children@);
            }
            let ghost pv = crate::expressions::preds_view(children@);
            let n = children.len();
            let mut found = false;
            let mut i: usize = 0;
            while i < n
                invariant
                    n == children@.len(),
                    *p matches Predicate::Junction(o2, cs) && cs == *children,
                    pv == crate::expressions::preds_view(children@),
                    pv.len() == n,
                    i <= n,
                    forall|j: int|
                        #![trigger children@[j]]
                        0 <= j < n ==> pv[j] == crate::expressions::pred_view(children@[j]),
                    found == preds_reference(pv.take(i as int), name@),
                decreases n - i,
            {
                proof {
                    assert(pv.take(i + 1).drop_last() =~= pv.take(i as int));
                    assert(pv.take(i + 1).last() == pv[i as int]);
                }
                assert(decreases_to!(*p => children@[i as int]));
                if pred_refs(&children[i], name) {
                    found = true;
                }
                i = i + 1;
            }
            proof {
                assert(pv.take(n as int) =~= pv);
            }
            found
        },
    }
}

/// Decides whether an expression references a column name.
pub fn expr_refs(e: &Expression, name: &str) -> (r: bool)
    ensures
        r == expr_references(e@, name@),
    decreases *e,
{
    match e {
        Expression::Literal(_) => false,
        Expression::Column(c) => crate::strings::str_eq(c.as_str(), name),
        Expression::Binary(_, l, rt) => expr_refs(l, name) || expr_refs(rt, name),
        Expression::Struct(children) => {
            proof {
                crate::expressions::lemma_exprs_view(children@);
            }
            let ghost ev = crate::expressions::exprs_view(children@);
            let n = children.len();
            let mut found = false;
            let mut i: usize = 0;
            while i < n
                invariant
                    n == children@.len(),
                    *e matches Expression::Struct(cs) && cs == *children,
                    ev == crate::expressions::exprs_view(children@),
                    ev.len() == n,
                    i <= n,
                    forall|j: int|
                        #![trigger children@[j]]
                        0 <= j < n ==> ev[j] == crate::expressions::expr_view(children@[j]),
                    found == exprs_reference(ev.take(i as int), name@),
                decreases n - i,
            {
                proof {
                    assert(ev.take(i + 1).drop_last() =~= ev.take(i as int));
                    assert(ev.take(i + 1).last() == ev[i as int]);
                }
                assert(decreases_to!(*e => children@[i as int]));
                if expr_refs(&children[i], name) {
                    found = true;
                }
                i = i + 1;
            }
            proof {
                assert(ev.take(n as int) =~= ev);
            }
            found
        },
    }
}

/// The schema fields a predicate references, in schema order.
pub open spec fn referenced_fields(fields: Seq<FieldV>, p: PredicateV) -> Seq<FieldV>
    decreases fields.len(),
{
    if fields.len() == 0 {
        Seq::empty()
    } else {
        let rest = referenced_fields(fields.drop_last(), p);
        if pred_references(p, fields.last().name) {
            rest.push(fields.last())
        } else {
            rest
        }
    }
}

impl PhysicalPredicate {
    /// Translates a logical predicate for a scan: a predicate that is
    /// statically false under `WHERE` semantics skips everything; otherwise
    /// it is kept with the schema restricted to the columns it references.
    pub fn try_new(predicate: &Predicate, schema: &StructType) -> (r: Result<
        PhysicalPredicate,
        Error,
    >)
        ensures
            spec_eval_sql(&EmptyColumnResolver, predicate@, false) == Some(false) ==> (r matches Ok(
                pp,
            ) && pp is StaticSkipAll),
            spec_eval_sql(&EmptyColumnResolver, predicate@, false) != Some(false) ==> (r matches Ok(
                pp,
            ) && (pp matches PhysicalPredicate::Filtered(q, sch) && q@ == predicate@ && sch@
                == referenced_fields(schema@, predicate@))),
    {
        let ev = DefaultKernelPredicateEvaluator::new(EmptyColumnResolver);
        match ev.eval_sql_where(predicate) {
            Some(false) => Ok(PhysicalPredicate::StaticSkipAll),
            _ => {
                proof {
                    crate::schema::lemma_fields_view(schema.fields@);
                }
                let ghost fv = schema@;
                let mut fields: Vec<StructField> = Vec::new();
                let n = schema.fields.len();
                let mut i: usize = 0;
                while i < n
                    invariant
                        n == schema.fields@.len(),
                        fv == schema@,
                        fv.len() == n,
                        i <= n,
                        forall|j: int|
                            #![trigger schema.fields@[j]]
                            0 <= j < n ==> fv[j] == crate::schema::sf_view(schema.fields@[j]),
                        crate::schema::fields_view(fields@) == referenced_fields(
                            fv.take(i as int),
                            predicate@,
                        ),
                    decreases n - i,
                {
                    proof {
                        assert(fv.take(i + 1).drop_last() =~= fv.take(i as int));
                        assert(fv.take(i + 1).last() == fv[i as int]);
                    }
                    let f = &schema.fields[i];
                    if pred_refs(predicate, f.name().as_str()) {
                        let ghost prev = fields@;
                        fields.push(crate::schema::clone_struct_field(f));
                        proof {
                            crate::schema::lemma_fields_view(prev);
                            crate::schema::lemma_fields_view(fields@);
                            assert(fields@.drop_last() =~= prev);
                        }
                    }
                    i = i + 1;
                }
                proof {
                    assert(fv.take(n as int) =~= fv);
                }
                Ok(
                    PhysicalPredicate::Filtered(
                        clone_predicate(predicate),
                        StructType::new(fields),
                    ),
                )
            },
        }
    }
}

/// Whether a name is one of the generated Change Data Feed columns.
pub open spec fn is_cdf_name(n: Seq<char>) -> bool {
    n == "_change_type"@ || n == "_commit_version"@ || n == "_commit_timestamp"@
}

/// The three generated column names are pairwise distinct.
pub proof fn lemma_cdf_names_distinct()
    ensures
        "_change_type"@ != "_commit_version"@,
        "_change_type"@ != "_commit_timestamp"@,
        "_commit_version"@ != "_commit_timestamp"@,
{
    reveal_strlit("_change_type");
    reveal_strlit("_commit_version");
    reveal_strlit("_commit_timestamp");
    assert("_change_type"@.len() == 12);
    assert("_commit_version"@.len() == 15);
    assert("_commit_timestamp"@.len() == 17);
}

/// Decides whether a name is a generated Change Data Feed column.
pub fn cdf_name(n: &str) -> (r: bool)
    ensures
        r == is_cdf_name(n@),
{
    crate::strings::str_eq(n, "_change_type") || crate::strings::str_eq(n, "_commit_version")
        || crate::strings::str_eq(n, "_commit_timestamp")
}

/// The views of the three generated Change Data Feed fields.
pub open spec fn cdf_fields_v() -> Seq<FieldV> {
    seq![
        FieldV {
            name: "_change_type"@,
            data_type: crate::schema::DataTypeV::Primitive(PrimitiveType::String),
            nullable: false,
        },
        FieldV {
            name: "_commit_version"@,
            data_type: crate::schema::DataTypeV::Primitive(PrimitiveType::Long),
            nullable: false,
        },
        FieldV {
            name: "_commit_timestamp"@,
            data_type: crate::schema::DataTypeV::Primitive(PrimitiveType::Timestamp),
            nullable: false,
        },
    ]
}

/// A commit range of a table whose change feed is read: the change schema
/// (the table's schema plus the generated columns), the partition columns,
/// the table root, and the versions replayed.
#[derive(Debug)]
pub struct TableChanges {
    pub schema: StructType,
    pub partition_columns: Vec<String>,
    pub table_root: String,
    pub start_version: u64,
    pub end_version: u64,
}

impl TableChanges {
    /// Builds the change feed surface of a table: the change schema is the
    /// table's schema with the three generated columns appended.
    pub fn new(
        base_schema: StructType,
        partition_columns: Vec<String>,
        table_root: String,
        start_version: u64,
        end_version: u64,
    ) -> (r: TableChanges)
        ensures
            r.schema@ == base_schema@ + cdf_fields_v(),
            r.partition_columns == partition_columns,
            r.table_root == table_root,
            r.start_version == start_version,
            r.end_version == end_version,
    {
        proof {
            crate::schema::lemma_fields_view(base_schema.fields@);
        }
        let mut fields = base_schema.fields;
        let ghost base_fields = fields@;
        fields.push(StructField::not_null("_change_type", DataType::string()));
        fields.push(StructField::not_null("_commit_version", DataType::long()));
        fields.push(StructField::not_null("_commit_timestamp", DataType::timestamp()));
        let schema = StructType::new(fields);
        proof {
            crate::schema::lemma_fields_view(schema.fields@);
            assert(schema@ =~= crate::schema::fields_view(base_fields) + cdf_fields_v());
        }
        TableChanges { schema, partition_columns, table_root, start_version, end_version }
    }

    /// The change schema, generated columns included.
    pub fn schema(&self) -> (r: &StructType)
        ensures
            r == &self.schema,
    {
        &self.schema
    }

    pub fn partition_columns(&self) -> (r: &Vec<String>)
        ensures
            r == &self.partition_columns,
    {
        &self.partition_columns
    }

    /// Starts building a scan over this change feed.
    pub fn into_scan_builder(self) -> (r: TableChangesScanBuilder)
        ensures
            r.table_changes == self,
            r.schema is None,
            r.predicate is None,
    {
        TableChangesScanBuilder { table_changes: self, schema: None, predicate: None }
    }
}

/// The classification of one field: a partition column is materialized by
/// its schema index; everything else is selected by name.
pub open spec fn classify_field(f: FieldV, parts: Seq<Seq<char>>, idx: int) -> ColumnTypeV {
    if parts.contains(f.name) {
        ColumnTypeV::Partition(idx)
    } else {
        ColumnTypeV::Selected(f.name)
    }
}

/// The classifications of all fields, in order.
pub open spec fn all_fields_of(fields: Seq<FieldV>, parts: Seq<Seq<char>>) -> Seq<ColumnTypeV>
    decreases fields.len(),
{
    if fields.len() == 0 {
        Seq::empty()
    } else {
        all_fields_of(fields.drop_last(), parts).push(
            classify_field(fields.last(), parts, fields.len() - 1),
        )
    }
}

/// The physical read fields: every field that is neither a partition column
/// nor a generated column.
pub open spec fn read_fields_of(fields: Seq<FieldV>, parts: Seq<Seq<char>>) -> Seq<FieldV>
    decreases fields.len(),
{
    if fields.len() == 0 {
        Seq::empty()
    } else {
        let rest = read_fields_of(fields.drop_last(), parts);
        if parts.contains(fields.last().name) || is_cdf_name(fields.last().name) {
            rest
        } else {
            rest.push(fields.last())
        }
    }
}

/// A builder for a change feed scan: an optional projected schema and an
/// optional predicate.
#[derive(Debug)]
pub struct TableChangesScanBuilder {
    pub table_changes: TableChanges,
    pub schema: Option<StructType>,
    pub predicate: Option<Predicate>,
}

/// A planned scan over a change feed.
#[derive(Debug)]
pub struct TableChangesScan {
    pub table_changes: TableChanges,
    pub logical_schema: StructType,
    pub physical_schema: StructType,
    pub physical_predicate: PhysicalPredicate,
    pub all_fields: Vec<ColumnType>,
}

impl TableChangesScanBuilder {
    /// Starts a builder over a change feed.
    pub fn new(table_changes: TableChanges) -> (r: TableChangesScanBuilder)
        ensures
            r.table_changes == table_changes,
            r.schema is None,
            r.predicate is None,
    {
        TableChangesScanBuilder { table_changes, schema: None, predicate: None }
    }

    /// Projects the scan to a subset of the change schema's columns.
    pub fn with_schema(self, schema: Option<StructType>) -> (r: Self)
        ensures
            r.schema == schema,
            r.table_changes == self.table_changes,
            r.predicate == self.predicate,
    {
        TableChangesScanBuilder { schema, ..self }
    }

    /// Filters the scanned rows; the filtering is best-effort and may keep
    /// rows that do not satisfy the predicate.
    pub fn with_predicate(self, predicate: Option<Predicate>) -> (r: Self)
        ensures
            r.predicate == predicate,
            r.table_changes == self.table_changes,
            r.schema == self.schema,
    {
        TableChangesScanBuilder { predicate, ..self }
    }

    /// Plans the scan: classifies every selected field, derives the
    /// physical read schema, and translates the predicate. Predicates over
    /// the generated Change Data Feed columns are rejected.
    pub fn build(self) -> (r: Result<TableChangesScan, Error>)
        ensures
            r matches Ok(s) ==> {
                &&& s.logical_schema@ == (match self.schema {
                    Some(sc) => sc@,
                    None => self.table_changes.schema@,
                })
                &&& column_types_view(s.all_fields@) == all_fields_of(
                    s.logical_schema@,
                    crate::transaction::names_view(self.table_changes.partition_columns@),
                )
                &&& s.physical_schema@ == read_fields_of(
                    s.logical_schema@,
                    crate::transaction::names_view(self.table_changes.partition_columns@),
                )
                &&& (self.predicate is None ==> s.physical_predicate is Unfiltered)
                &&& (self.predicate matches Some(p) ==> !pred_references(p@, "_change_type"@)
                    && !pred_references(p@, "_commit_version"@) && !pred_references(
                    p@,
                    "_commit_timestamp"@,
                ) && (spec_eval_sql(&EmptyColumnResolver, p@, false) == Some(false)
                    ==> s.physical_predicate is StaticSkipAll) && (spec_eval_sql(
                    &EmptyColumnResolver,
                    p@,
                    false,
                ) != Some(false) ==> (s.physical_predicate matches PhysicalPredicate::Filtered(
                    q,
                    sch,
                ) && q@ == p@ && sch@ == referenced_fields(s.logical_schema@, p@))))
                &&& s.table_changes == self.table_changes
            },
            self.predicate matches Some(p) && (pred_references(p@, "_change_type"@)
                || pred_references(p@, "_commit_version"@) || pred_references(
                p@,
                "_commit_timestamp"@,
            )) ==> r is Err,
            self.predicate is None ==> r is Ok,
            self.predicate matches Some(p) && !pred_references(p@, "_change_type"@)
                && !pred_references(p@, "_commit_version"@) && !pred_references(
                p@,
                "_commit_timestamp"@,
            ) ==> r is Ok,
    {
        let logical_schema = match self.schema {
            Some(sc) => sc,
            None => clone_struct_type(&self.table_changes.schema),
        };
        proof {
            crate::schema::lemma_fields_view(logical_schema.fields@);
        }
        let ghost lv = logical_schema@;
        let ghost parts = crate::transaction::names_view(self.table_changes.partition_columns@);
        let mut all_fields: Vec<ColumnType> = Vec::new();
        let mut read_fields: Vec<StructField> = Vec::new();
        let n = logical_schema.fields.len();
        let mut i: usize = 0;
        while i < n
            invariant
                n == logical_schema.fields@.len(),
                lv == logical_schema@,
                lv.len() == n,
                parts == crate::transaction::names_view(self.table_changes.partition_columns@),
                i <= n,
                forall|j: int|
                    #![trigger logical_schema.fields@[j]]
                    0 <= j < n ==> lv[j] == crate::schema::sf_view(logical_schema.fields@[j]),
                column_types_view(all_fields@) == all_fields_of(lv.take(i as int), parts),
                crate::schema::fields_view(read_fields@) == read_fields_of(
                    lv.take(i as int),
                    parts,
                ),
            decreases n - i,
        {
            proof {
                assert(lv.take(i + 1).drop_last() =~= lv.take(i as int));
                assert(lv.take(i + 1).last() == lv[i as int]);
            }
            let f = &logical_schema.fields[i];
            let ghost prev_all = all_fields@;
            let ghost prev_read = read_fields@;
            if crate::transaction::contains_name(
                &self.table_changes.partition_columns,
                f.name().as_str(),
            ) {
                all_fields.push(ColumnType::Partition(i));
            } else if cdf_name(f.name().as_str()) {
                all_fields.push(ColumnType::Selected(f.name().clone()));
            } else {
                all_fields.push(ColumnType::Selected(f.name().clone()));
                read_fields.push(crate::schema::clone_struct_field(f));
                proof {
                    crate::schema::lemma_fields_view(prev_read);
                    crate::schema::lemma_fields_view(read_fields@);
                    assert(read_fields@.drop_last() =~= prev_read);
                }
            }
            proof {
                assert(all_fields@.drop_last() =~= prev_all);
                assert(column_types_view(all_fields@) =~= column_types_view(prev_all).push(
                    column_type_view(all_fields@.last()),
                ));
            }
            i = i + 1;
        }
        proof {
            assert(lv.take(n as int) =~= lv);
        }
        let physical_predicate = match &self.predicate {
            Some(p) => {
                if pred_refs(p, "_change_type") || pred_refs(p, "_commit_version") || pred_refs(
                    p,
                    "_commit_timestamp",
                ) {
                    return Err(
                        Error::generic(
                            "predicates on Change Data Feed columns are not supported",
                        ),
                    );
                }
                match PhysicalPredicate::try_new(p, &logical_schema) {
                    Ok(pp) => pp,
                    Err(e) => {
                        return Err(e);
                    },
                }
            },
            None => PhysicalPredicate::Unfiltered,
        };
        Ok(
            TableChangesScan {
                table_changes: self.table_changes,
                logical_schema,
                physical_schema: StructType::new(read_fields),
                physical_predicate,
                all_fields,
            },
        )
    }
}

/// How one change file entered its commit.
#[derive(Debug, Clone, Copy, PartialEq, Eq, Structural)]
pub enum CdfScanFileType {
    Add,
    Remove,
    Cdc,
}

/// One change file of a commit, as log replay produced it.
#[derive(Debug)]
pub struct CdfScanFile {
    pub scan_type: CdfScanFileType,
    pub path: String,
    pub dv_info: DvInfo,
    /// The remove-side deletion vector when this file is the add side of a
    /// resolved add/remove pair.
    pub remove_dv: Option<DeletionVectorDescriptor>,
    pub partition_values: Vec<(String, String)>,
    pub commit_version: i64,
    pub commit_timestamp: i64,
}

/// A change file with its resolved selection vector.
#[derive(Debug)]
pub struct ResolvedCdfScanFile {
    pub scan_file: CdfScanFile,
    pub selection_vector: Option<Vec<bool>>,
}

/// The log replay side of the engine: replays the commit range of a change
/// feed in ascending version order and yields its change files.
pub trait LogReplay {
    fn replay(&mut self, table_changes: &TableChanges, predicate: Option<&Predicate>) -> Result<
        Vec<CdfScanFile>,
        Error,
    >;
}

/// The full engine surface a change feed scan drives: expression evaluation,
/// deletion-vector storage reads, and data file reads.
pub trait Engine: EvaluationHandler + StorageHandler {
    /// Reads a data file under the physical schema, yielding its batches.
    fn read_parquet_file(&mut self, path: &String, physical_schema: &StructType) -> Result<
        Vec<<Self as EvaluationHandler>::Data>,
        Error,
    >;
}

/// Resolves the selection vector of one change file: a resolved add/remove
/// pair selects exactly the rows whose deletion membership changed (the
/// symmetric difference of the two bitmaps); an unpaired file with a
/// deletion vector keeps its undeleted rows; otherwise no vector applies.
/// A pair or a present descriptor always yields a vector.
pub fn resolve_scan_file_dv<S: StorageHandler>(
    storage: &mut S,
    table_root: &str,
    scan_file: CdfScanFile,
) -> (r: Result<ResolvedCdfScanFile, Error>)
    ensures
        r matches Ok(res) ==> res.scan_file == scan_file && (res.selection_vector is Some <==> (
        scan_file.remove_dv is Some || scan_file.dv_info.deletion_vector is Some)),
{
    match &scan_file.remove_dv {
        Some(rm) => {
            let rm_bytes = match storage.read_dv_bytes(rm, table_root) {
                Ok(b) => b,
                Err(e) => {
                    return Err(e);
                },
            };
            let rm_map = match treemap_deserialize(rm_bytes.as_slice()) {
                Ok(t) => t,
                Err(e) => {
                    return Err(e);
                },
            };
            let add_map = match &scan_file.dv_info.deletion_vector {
                Some(dv) => {
                    let bytes = match storage.read_dv_bytes(dv, table_root) {
                        Ok(b) => b,
                        Err(e) => {
                            return Err(e);
                        },
                    };
                    match treemap_deserialize(bytes.as_slice()) {
                        Ok(t) => t,
                        Err(e) => {
                            return Err(e);
                        },
                    }
                },
                None => treemap_empty(),
            };
            let changed = treemap_xor(&rm_map, &add_map);
            match treemap_max(&changed) {
                Some(m) => {
                    if m >= usize::MAX as u64 {
                        return Err(Error::generic("deletion vector index out of range"));
                    }
                },
                None => {},
            }
            let sv = changed_treemap_to_bools(&changed);
            Ok(ResolvedCdfScanFile { scan_file, selection_vector: Some(sv) })
        },
        None => {
            let sv = match scan_file.dv_info.get_selection_vector(storage, table_root) {
                Ok(v) => v,
                Err(e) => {
                    return Err(e);
                },
            };
            Ok(ResolvedCdfScanFile { scan_file, selection_vector: sv })
        },
    }
}

/// The first partition value bound to a name; a missing binding reads as
/// the empty string, which parses as the typed null.
pub open spec fn pv_lookup(values: Seq<(Seq<char>, Seq<char>)>, name: Seq<char>) -> Seq<char>
    decreases values.len(),
{
    if values.len() == 0 {
        Seq::empty()
    } else if values[0].0 == name {
        values[0].1
    } else {
        pv_lookup(values.drop_first(), name)
    }
}

/// The views of a partition value list.
pub open spec fn pvs_view(values: Seq<(String, String)>) -> Seq<(Seq<char>, Seq<char>)> {
    values.map(|i: int, e: (String, String)| (e.0@, e.1@))
}

/// The change-type literal of an unpaired or paired file.
pub open spec fn change_type_of(ty: CdfScanFileType, resolved_pair: bool) -> Seq<char> {
    match ty {
        CdfScanFileType::Add => if resolved_pair {
            "update_postimage"@
        } else {
            "insert"@
        },
        CdfScanFileType::Remove => if resolved_pair {
            "update_preimage"@
        } else {
            "delete"@
        },
        CdfScanFileType::Cdc => Seq::empty(),
    }
}

/// Whether one classified column can be turned into a transform child
/// from the file's own data: a partition column needs an in-range schema
/// index, a primitive non-floating type, and a partition value that parses
/// at that type; a selected column always can, up to the commit timestamp
/// conversion treated separately.
pub open spec fn p2l_field_ok(
    ct: ColumnTypeV,
    schema: Seq<FieldV>,
    pvs: Seq<(Seq<char>, Seq<char>)>,
) -> bool {
    match ct {
        ColumnTypeV::Partition(idx) => {
            &&& 0 <= idx < schema.len()
            &&& schema[idx].data_type matches crate::schema::DataTypeV::Primitive(p) && p
                != PrimitiveType::Float && p != PrimitiveType::Double
                && crate::parse::parse_scalar_spec(p, pv_lookup(pvs, schema[idx].name)) is Some
        },
        ColumnTypeV::Selected(_) => true,
    }
}

/// Whether every classified column can be turned into a transform child.
pub open spec fn p2l_fields_ok(
    cts: Seq<ColumnTypeV>,
    schema: Seq<FieldV>,
    pvs: Seq<(Seq<char>, Seq<char>)>,
) -> bool {
    forall|i: int| 0 <= i < cts.len() ==> p2l_field_ok(#[trigger] cts[i], schema, pvs)
}

/// The transform child for one classified column of a change file.
pub open spec fn p2l_child(
    ct: ColumnTypeV,
    schema: Seq<FieldV>,
    pvs: Seq<(Seq<char>, Seq<char>)>,
    scan_type: CdfScanFileType,
    resolved_pair: bool,
    commit_version: i64,
    commit_ts_us: int,
) -> ExpressionV {
    match ct {
        ColumnTypeV::Partition(idx) => {
            let f = schema[idx];
            match f.data_type {
                crate::schema::DataTypeV::Primitive(p) => match crate::parse::parse_scalar_spec(
                    p,
                    pv_lookup(pvs, f.name),
                ) {
                    Some(v) => ExpressionV::Literal(v),
                    None => arbitrary(),
                },
                _ => arbitrary(),
            }
        },
        ColumnTypeV::Selected(name) => {
            if name == "_change_type"@ && scan_type != CdfScanFileType::Cdc {
                ExpressionV::Literal(ScalarV::String(change_type_of(scan_type, resolved_pair)))
            } else if name == "_commit_version"@ {
                ExpressionV::Literal(ScalarV::Long(commit_version))
            } else if name == "_commit_timestamp"@ {
                ExpressionV::Literal(ScalarV::Timestamp(commit_ts_us as i64))
            } else {
                ExpressionV::Column(name)
            }
        },
    }
}

/// Builds the per-file physical-to-logical transform: selected physical
/// columns pass through, partition columns become literals parsed from the
/// partition values at the field's type, and the generated columns become
/// literals of the file's commit; change files read their change type
/// physically.
pub fn physical_to_logical_expr(
    scan_file: &CdfScanFile,
    logical_schema: &StructType,
    all_fields: &Vec<ColumnType>,
) -> (r: Result<Expression, Error>)
    ensures
        r matches Ok(e) ==> e@ matches ExpressionV::Struct(cs) && cs.len() == all_fields@.len()
            && (forall|i: int|
            0 <= i < all_fields@.len() ==> #[trigger] cs[i] == p2l_child(
                column_type_view(all_fields@[i]),
                logical_schema@,
                pvs_view(scan_file.partition_values@),
                scan_file.scan_type,
                scan_file.remove_dv is Some,
                scan_file.commit_version,
                scan_file.commit_timestamp * 1000,
            )),
        r is Ok ==> p2l_fields_ok(
            column_types_view(all_fields@),
            logical_schema@,
            pvs_view(scan_file.partition_values@),
        ),
        p2l_fields_ok(
            column_types_view(all_fields@),
            logical_schema@,
            pvs_view(scan_file.partition_values@),
        ) && -8000000000000000 <= scan_file.commit_timestamp <= 8000000000000000 ==> r is Ok,
{
    let resolved_pair = matches!(scan_file.remove_dv, Some(_));
    proof {
        crate::schema::lemma_fields_view(logical_schema.fields@);
    }
    let ghost lv = logical_schema@;
    let ghost pvs = pvs_view(scan_file.partition_values@);
    let mut children: Vec<Expression> = Vec::new();
    let n = all_fields.len();
    let mut i: usize = 0;
    while i < n
        invariant
            n == all_fields@.len(),
            resolved_pair == (scan_file.remove_dv is Some),
            lv == logical_schema@,
            lv.len() == logical_schema.fields@.len(),
            pvs == pvs_view(scan_file.partition_values@),
            forall|j: int|
                #![trigger logical_schema.fields@[j]]
                0 <= j < lv.len() ==> lv[j] == crate::schema::sf_view(logical_schema.fields@[j]),
            i <= n,
            children@.len() == i,
            forall|j: int|
                0 <= j < i ==> p2l_field_ok(
                    #[trigger] column_types_view(all_fields@)[j],
                    lv,
                    pvs,
                ),
            forall|j: int|
                #![trigger children@[j]]
                0 <= j < i ==> children@[j]@ == p2l_child(
                    column_type_view(all_fields@[j]),
                    lv,
                    pvs,
                    scan_file.scan_type,
                    scan_file.remove_dv is Some,
                    scan_file.commit_version,
                    scan_file.commit_timestamp * 1000,
                ),
        decreases n - i,
    {
        let child: Expression = match &all_fields[i] {
            ColumnType::Partition(idx) => {
                if *idx >= logical_schema.fields.len() {
                    proof {
                        assert(!p2l_field_ok(column_types_view(all_fields@)[i as int], lv, pvs));
                    }
                    return Err(Error::generic("partition column index out of range"));
                }
                let field = &logical_schema.fields[*idx];
                let prim = match field.data_type() {
                    DataType::Primitive(p) => *p,
                    _ => {
                        proof {
                            assert(!p2l_field_ok(
                                column_types_view(all_fields@)[i as int],
                                lv,
                                pvs,
                            ));
                        }
                        return Err(Error::generic("partition column must have primitive type"));
                    },
                };
                if matches!(prim, PrimitiveType::Float) || matches!(prim, PrimitiveType::Double) {
                    proof {
                        assert(!p2l_field_ok(column_types_view(all_fields@)[i as int], lv, pvs));
                    }
                    return Err(
                        Error::generic("floating-point partition columns are not supported"),
                    );
                }
                let raw = lookup_partition_value(
                    &scan_file.partition_values,
                    field.name().as_str(),
                );
                let value = match prim.parse_scalar(raw) {
                    Ok(v) => v,
                    Err(e) => {
                        proof {
                            assert(!p2l_field_ok(
                                column_types_view(all_fields@)[i as int],
                                lv,
                                pvs,
                            ));
                        }
                        return Err(e);
                    },
                };
                proof {
                    assert(p2l_field_ok(column_types_view(all_fields@)[i as int], lv, pvs));
                }
                Expression::literal(value)
            },
            ColumnType::Selected(name) => {
                if crate::strings::str_eq(name.as_str(), "_change_type") {
                    match scan_file.scan_type {
                        CdfScanFileType::Cdc => {
                            let c = Expression::column(name.as_str());
                            proof {
                                lemma_cdf_names_distinct();
                                assert(c@ == ExpressionV::Column(name@));
                            }
                            c
                        },
                        CdfScanFileType::Add => {
                            if resolved_pair {
                                Expression::literal(Scalar::String(String::from_str(
                                    "update_postimage",
                                )))
                            } else {
                                Expression::literal(Scalar::String(String::from_str("insert")))
                            }
                        },
                        CdfScanFileType::Remove => {
                            if resolved_pair {
                                Expression::literal(Scalar::String(String::from_str(
                                    "update_preimage",
                                )))
                            } else {
                                Expression::literal(Scalar::String(String::from_str("delete")))
                            }
                        },
                    }
                } else if crate::strings::str_eq(name.as_str(), "_commit_version") {
                    Expression::literal(Scalar::Long(scan_file.commit_version))
                } else if crate::strings::str_eq(name.as_str(), "_commit_timestamp") {
                    let ts = match Scalar::timestamp_from_millis(scan_file.commit_timestamp) {
                        Ok(t) => t,
                        Err(e) => {
                            proof {
                                assert(!(-8000000000000000 <= scan_file.commit_timestamp
                                    <= 8000000000000000));
                            }
                            return Err(e);
                        },
                    };
                    Expression::literal(ts)
                } else {
                    Expression::column(name.as_str())
                }
            },
        };
        proof {
            lemma_cdf_names_distinct();
            assert(child@ == p2l_child(
                column_type_view(all_fields@[i as int]),
                lv,
                pvs,
                scan_file.scan_type,
                scan_file.remove_dv is Some,
                scan_file.commit_version,
                scan_file.commit_timestamp * 1000,
            ));
        }
        children.push(child);
        i = i + 1;
    }
    proof {
        crate::expressions::lemma_exprs_view(children@);
    }
    Ok(Expression::struct_from(children))
}

/// The first partition value bound to the name; a missing binding reads as
/// the empty string, which parses as the typed null.
fn lookup_partition_value<'a>(values: &'a Vec<(String, String)>, name: &str) -> (r: &'a str)
    ensures
        r@ == pv_lookup(pvs_view(values@), name@),
{
    let ghost pvs = pvs_view(values@);
    let n = values.len();
    proof {
        assert(pvs.skip(0) =~= pvs);
        reveal_strlit("");
    }
    for i in 0..n
        invariant
            n == values@.len(),
            pvs == pvs_view(values@),
            pvs.len() == n,
            pv_lookup(pvs, name@) == pv_lookup(pvs.skip(i as int), name@),
    {
        proof {
            assert(pvs.skip(i as int)[0] == pvs[i as int]);
            assert(pvs[i as int] == (values@[i as int].0@, values@[i as int].1@));
            assert(pvs.skip(i as int).drop_first() =~= pvs.skip(i + 1));
        }
        if crate::strings::str_eq(values[i].0.as_str(), name) {
            return values[i].1.as_str();
        }
    }
    ""
}

/// The physical schema a change file is read under: change files carry
/// their change type physically, so it is appended for them.
pub fn scan_file_physical_schema(scan_file: &CdfScanFile, physical_schema: &StructType) -> (r:
    StructType)
    ensures
        scan_file.scan_type == CdfScanFileType::Cdc ==> r@ == physical_schema@ + seq![
            FieldV {
                name: "_change_type"@,
                data_type: crate::schema::DataTypeV::Primitive(PrimitiveType::String),
                nullable: false,
            },
        ],
        scan_file.scan_type != CdfScanFileType::Cdc ==> r@ == physical_schema@,
{
    if matches!(scan_file.scan_type, CdfScanFileType::Cdc) {
        proof {
            crate::schema::lemma_fields_view(physical_schema.fields@);
        }
        let mut s = clone_struct_type(physical_schema);
        let ghost base = s@;
        proof {
            crate::schema::lemma_fields_view(s.fields@);
        }
        s.fields.push(StructField::not_null("_change_type", DataType::string()));
        proof {
            crate::schema::lemma_fields_view(s.fields@);
            assert(s@ =~= physical_schema@ + seq![
                FieldV {
                    name: "_change_type"@,
                    data_type: crate::schema::DataTypeV::Primitive(PrimitiveType::String),
                    nullable: false,
                },
            ]);
        }
        s
    } else {
        clone_struct_type(physical_schema)
    }
}

/// The mask views of a run of scan results.
pub open spec fn masks_of<D>(rs: Seq<ScanResult<D>>) -> Seq<Seq<bool>> {
    rs.map(
        |i: int, r: ScanResult<D>|
            match r.raw_mask {
                Some(m) => m@,
                None => Seq::<bool>::empty(),
            },
    )
}

/// Reads the batches of one resolved change file and transforms them to
/// logical form, splitting the resolved selection vector across batches: a
/// resolved pair pads with false (rows beyond the bitmap did not change),
/// an unpaired file pads with true (rows beyond the deletions are live).
/// Concatenating the emitted masks reproduces the resolved vector padded to
/// the total length read.
pub fn read_scan_file<E: Engine>(
    engine: &mut E,
    resolved: ResolvedCdfScanFile,
    table_root: &str,
    logical_schema: &StructType,
    physical_schema: &StructType,
    all_fields: &Vec<ColumnType>,
) -> (r: Result<Vec<ScanResult<<E as EvaluationHandler>::Data>>, Error>)
    ensures
        r matches Ok(results) ==> (match resolved.selection_vector {
            Some(v0) => {
                &&& (forall|i: int| 0 <= i < results@.len() ==> (#[trigger] results@[i]).raw_mask
                    is Some)
                &&& crate::deletion_vectors::concat_all(masks_of(results@)) == split_mask(
                    v0@,
                    total_mask_len(masks_of(results@)),
                    resolved.scan_file.remove_dv is None,
                )
            },
            None => forall|i: int|
                0 <= i < results@.len() ==> (#[trigger] results@[i]).raw_mask is None,
        }),
        !p2l_fields_ok(
            column_types_view(all_fields@),
            logical_schema@,
            pvs_view(resolved.scan_file.partition_values@),
        ) ==> r is Err,
{
    let ResolvedCdfScanFile { scan_file, selection_vector } = resolved;
    let is_pair = matches!(scan_file.remove_dv, Some(_));
    let pad = !is_pair;
    let expr = match physical_to_logical_expr(&scan_file, logical_schema, all_fields) {
        Ok(e) => e,
        Err(e) => {
            return Err(e);
        },
    };
    let read_schema = scan_file_physical_schema(&scan_file, physical_schema);
    let mut location = String::from_str(table_root);
    location.append("/");
    location.append(scan_file.path.as_str());
    let batches = match engine.read_parquet_file(&location, &read_schema) {
        Ok(b) => b,
        Err(e) => {
            return Err(e);
        },
    };
    let ghost v0: Seq<bool> = (match selection_vector {
        Some(ref v) => v@,
        None => Seq::empty(),
    });
    let ghost had_vector = selection_vector is Some;
    let mut sv = selection_vector;
    let mut results: Vec<ScanResult<<E as EvaluationHandler>::Data>> = Vec::new();
    let mut bs = batches;
    proof {
        assert(split_mask(v0, 0, pad) =~= Seq::<bool>::empty());
        assert(split_rest(v0, 0) =~= v0);
    }
    while bs.len() > 0
        invariant
            had_vector ==> (sv matches Some(v) && v@ == split_rest(
                v0,
                total_mask_len(masks_of(results@)),
            )),
            !had_vector ==> sv is None,
            had_vector ==> (forall|j: int|
                0 <= j < results@.len() ==> (#[trigger] results@[j]).raw_mask is Some),
            !had_vector ==> (forall|j: int|
                0 <= j < results@.len() ==> (#[trigger] results@[j]).raw_mask is None),
            had_vector ==> crate::deletion_vectors::concat_all(masks_of(results@)) == split_mask(
                v0,
                total_mask_len(masks_of(results@)),
                pad,
            ),
            total_mask_len(masks_of(results@)) >= 0,
        decreases bs@.len(),
    {
        let batch = bs.remove(0);
        let logical = match crate::scan::transform_to_logical(
            engine,
            batch,
            &read_schema,
            logical_schema,
            &Some(expr.clone()),
        ) {
            Ok(d) => d,
            Err(e) => {
                return Err(e);
            },
        };
        let len = engine.data_len(&logical);
        let (mask, rest) = split_vector(sv, len, Some(pad));
        let ghost prev_masks = masks_of(results@);
        let ghost prev_total = total_mask_len(prev_masks);
        results.push(ScanResult { raw_data: logical, raw_mask: mask });
        sv = rest;
        proof {
            if had_vector {
                let new_masks = masks_of(results@);
                let m = new_masks.last();
                assert(new_masks =~= prev_masks.push(m));
                assert(m == split_mask(split_rest(v0, prev_total), len as int, pad));
                assert(m.len() == len as int);
                lemma_total_mask_snoc(prev_masks, m);
                lemma_split_step(v0, prev_total, len as int, pad);
                lemma_concat_snoc(prev_masks, m);
                assert(total_mask_len(new_masks) == prev_total + len);
                assert(crate::deletion_vectors::concat_all(new_masks)
                    == crate::deletion_vectors::concat_all(prev_masks) + m);
            } else {
                let new_masks = masks_of(results@);
                assert(new_masks =~= prev_masks.push(new_masks.last()));
                lemma_total_mask_snoc(prev_masks, new_masks.last());
                lemma_concat_snoc(prev_masks, new_masks.last());
            }
        }
    }
    Ok(results)
}

/// The total length of a run of masks.
pub open spec fn total_mask_len(masks: Seq<Seq<bool>>) -> int
    decreases masks.len(),
{
    if masks.len() == 0 {
        0
    } else {
        total_mask_len(masks.drop_last()) + masks.last().len()
    }
}

/// Appending one mask adds its length.
pub proof fn lemma_total_mask_snoc(masks: Seq<Seq<bool>>, m: Seq<bool>)
    ensures
        total_mask_len(masks.push(m)) == total_mask_len(masks) + m.len(),
        total_mask_len(masks) >= 0,
    decreases masks.len(),
{
    assert(masks.push(m).drop_last() =~= masks);
    if masks.len() > 0 {
        lemma_total_mask_snoc(masks.drop_last(), masks.last());
    }
}

/// Concatenation distributes over appending one sequence.
pub proof fn lemma_concat_snoc(masks: Seq<Seq<bool>>, m: Seq<bool>)
    ensures
        crate::deletion_vectors::concat_all(masks.push(m)) == crate::deletion_vectors::concat_all(
            masks,
        ) + m,
    decreases masks.len(),
{
    if masks.len() == 0 {
        assert(masks.push(m)[0] == m);
        assert(masks.push(m).drop_first() =~= Seq::<Seq<bool>>::empty());
        assert(crate::deletion_vectors::concat_all(Seq::<Seq<bool>>::empty())
            == Seq::<bool>::empty());
        assert(crate::deletion_vectors::concat_all(masks.push(m)) == m + Seq::<bool>::empty());
        assert(m + Seq::<bool>::empty() =~= m);
        assert(crate::deletion_vectors::concat_all(masks) + m =~= m);
    } else {
        assert(masks.push(m).drop_first() =~= masks.drop_first().push(m));
        lemma_concat_snoc(masks.drop_first(), m);
        assert(masks.push(m)[0] == masks[0]);
        assert(crate::deletion_vectors::concat_all(masks.push(m))
            =~= crate::deletion_vectors::concat_all(masks) + m);
    }
}

impl TableChangesScan {
    /// The logical schema of this scan.
    pub fn logical_schema(&self) -> (r: &StructType)
        ensures
            r == &self.logical_schema,
    {
        &self.logical_schema
    }

    /// The physical schema of this scan: partition and generated columns
    /// omitted.
    pub fn physical_schema(&self) -> (r: &StructType)
        ensures
            r == &self.physical_schema,
    {
        &self.physical_schema
    }

    /// The table root this scan reads under.
    pub fn table_root(&self) -> (r: &String)
        ensures
            r == &self.table_changes.table_root,
    {
        &self.table_changes.table_root
    }

    /// The translated predicate, when one restricts this scan.
    pub fn physical_predicate(&self) -> (r: Option<Predicate>)
        ensures
            match self.physical_predicate {
                PhysicalPredicate::Filtered(p, _) => r matches Some(q) && q@ == p@,
                _ => r is None,
            },
    {
        match &self.physical_predicate {
            PhysicalPredicate::Filtered(p, _) => Some(clone_predicate(p)),
            _ => None,
        }
    }

    /// The change files of the commit range, replayed in ascending version
    /// order; a statically false predicate yields nothing without replay.
    pub fn scan_metadata<L: LogReplay>(&self, replayer: &mut L) -> (r: Result<
        Vec<CdfScanFile>,
        Error,
    >)
        ensures
            self.physical_predicate is StaticSkipAll ==> (r matches Ok(v) && v@.len() == 0),
    {
        match &self.physical_predicate {
            PhysicalPredicate::StaticSkipAll => Ok(Vec::new()),
            PhysicalPredicate::Filtered(p, _) => replayer.replay(&self.table_changes, Some(p)),
            PhysicalPredicate::Unfiltered => replayer.replay(&self.table_changes, None),
        }
    }

    /// Reads the whole change feed: replays the commit range, then resolves
    /// and reads each change file in turn, yielding one result per produced
    /// batch. A failure while resolving or reading one file appears as one
    /// error item and the remaining files are still read: one bad file does
    /// not poison the scan. A statically false predicate reads nothing.
    pub fn execute<E: Engine, L: LogReplay>(&self, engine: &mut E, replayer: &mut L) -> (r: Result<
        Vec<Result<ScanResult<<E as EvaluationHandler>::Data>, Error>>,
        Error,
    >)
        ensures
            self.physical_predicate is StaticSkipAll ==> (r matches Ok(v) && v@.len() == 0),
    {
        let scan_files = match self.scan_metadata(replayer) {
            Ok(fs) => fs,
            Err(e) => {
                return Err(e);
            },
        };
        let mut results: Vec<Result<ScanResult<<E as EvaluationHandler>::Data>, Error>> =
            Vec::new();
        let ghost no_files = scan_files@.len() == 0;
        let mut files = scan_files;
        while files.len() > 0
            invariant
                self.physical_predicate is StaticSkipAll ==> no_files,
                no_files ==> results@.len() == 0 && files@.len() == 0,
            decreases files@.len(),
        {
            let file = files.remove(0);
            let resolved = match resolve_scan_file_dv(
                engine,
                self.table_changes.table_root.as_str(),
                file,
            ) {
                Ok(rf) => rf,
                Err(e) => {
                    results.push(Err(e));
                    continue;
                },
            };
            match read_scan_file(
                engine,
                resolved,
                self.table_changes.table_root.as_str(),
                &self.logical_schema,
                &self.physical_schema,
                &self.all_fields,
            ) {
                Ok(batch_results) => {
                    let mut bs = batch_results;
                    while bs.len() > 0
                        invariant
                            !no_files,
                        decreases bs@.len(),
                    {
                        results.push(Ok(bs.remove(0)));
                    }
                },
                Err(e) => {
                    results.push(Err(e));
                },
            }
        }
        Ok(results)
    }
}

} // verus!
