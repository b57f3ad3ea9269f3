//! Scan state: the per-commit batch of action rows with its selection
//! vector and per-row transforms, and the iteration that yields the live
//! data files a scan must read.
use vstd::prelude::*;

verus! {

use crate::deletion_vectors::DeletionVectorDescriptor;
use crate::error::Error;
use crate::expressions::{clone_expression, Expression, ExpressionV};

/// Deletion vector information of one scan file; absence means every row
/// of the file is selected.
#[derive(Debug)]
pub struct DvInfo {
    pub deletion_vector: Option<DeletionVectorDescriptor>,
}

/// File statistics an engine may consume. When a deletion vector is present
/// the record count may not reflect deleted rows yet.
#[derive(Debug, Clone, Copy, PartialEq, Eq, Structural)]
pub struct Stats {
    /// The number of records in the data file.
    pub num_records: u64,
}

/// The view of a deletion vector descriptor.
pub struct DvV {
    pub storage_type: Seq<char>,
    pub path_or_inline_dv: Seq<char>,
    pub offset: Option<i32>,
    pub size_in_bytes: i32,
    pub cardinality: i64,
}

/// The view of a descriptor.
pub open spec fn dv_view(d: DeletionVectorDescriptor) -> DvV {
    DvV {
        storage_type: d.storage_type@,
        path_or_inline_dv: d.path_or_inline_dv@,
        offset: d.offset,
        size_in_bytes: d.size_in_bytes,
        cardinality: d.cardinality,
    }
}

/// The view of optional deletion vector information.
pub open spec fn dv_info_view(d: DvInfo) -> Option<DvV> {
    match d.deletion_vector {
        Some(dv) => Some(dv_view(dv)),
        None => None,
    }
}

impl DvInfo {
    /// Whether a deletion vector is present, which also tells a consumer
    /// that file statistics may be stale.
    pub fn has_vector(&self) -> (r: bool)
        ensures
            r == (self.deletion_vector is Some),
    {
        matches!(self.deletion_vector, Some(_))
    }
}

impl vstd::std_specs::convert::FromSpecImpl<DeletionVectorDescriptor> for DvInfo {
    open spec fn obeys_from_spec() -> bool {
        true
    }

    open spec fn from_spec(v: DeletionVectorDescriptor) -> DvInfo {
        DvInfo { deletion_vector: Some(v) }
    }
}

impl From<DeletionVectorDescriptor> for DvInfo {
    fn from(v: DeletionVectorDescriptor) -> (r: DvInfo) {
        DvInfo { deletion_vector: Some(v) }
    }
}

/// The number of records a stats text reports, if it parses and holds one.
pub uninterp spec fn stats_num_records(s: Seq<char>) -> Option<u64>;

/// Relies on serde_json's `from_str`, `Value::get` and `Value::as_u64`:
/// reads the unsigned `numRecords` field of a JSON object, yielding nothing
/// for text that does not parse or lacks the field; the result depends on
/// the text alone.
#[verifier::external_body]
fn parse_stats_num_records(json: &str) -> (r: Option<u64>)
    ensures
        r == stats_num_records(json@),
{
    serde_json::from_str::<serde_json::Value>(json).ok().and_then(
        |v| v.get("numRecords").and_then(|n| n.as_u64()),
    )
}

/// Parses a stats text into statistics; invalid text is treated as absent
/// statistics, and scanning continues.
pub fn parse_stats(json: &str) -> (r: Option<Stats>)
    ensures
        r == (match stats_num_records(json@) {
            Some(n) => Some(Stats { num_records: n }),
            None => None::<Stats>,
        }),
{
    match parse_stats_num_records(json) {
        Some(n) => Some(Stats { num_records: n }),
        None => None,
    }
}

/// One action row of scan metadata, as the log replay produced it.
#[derive(Debug)]
pub struct ScanFileRow {
    /// The data file path; absent for rows that are not add actions.
    pub path: Option<String>,
    /// The data file size in bytes.
    pub size: i64,
    /// The raw statistics text, if the action carried one.
    pub stats_json: Option<String>,
    /// The deletion vector descriptor, if the action carried one.
    pub deletion_vector: Option<DeletionVectorDescriptor>,
    /// The partition values of the file.
    pub partition_values: Vec<(String, String)>,
}

/// A batch of scan metadata: action rows, the selection vector marking
/// which rows are live add actions after log replay, and a per-row
/// transform for materializing partition and generated columns.
#[derive(Debug)]
pub struct ScanMetadata {
    pub rows: Vec<ScanFileRow>,
    pub selection_vector: Vec<bool>,
    pub scan_file_transforms: Vec<Option<Expression>>,
}

/// One data file a scan must read.
#[derive(Debug)]
pub struct ScanFile {
    pub path: String,
    pub size: i64,
    pub stats: Option<Stats>,
    pub dv_info: DvInfo,
    pub transform: Option<Expression>,
    pub partition_values: Vec<(String, String)>,
}

/// The view of a scan file row.
pub struct RowV {
    pub path: Option<Seq<char>>,
    pub size: i64,
    pub stats_json: Option<Seq<char>>,
    pub deletion_vector: Option<DvV>,
    pub partition_values: Seq<(Seq<char>, Seq<char>)>,
}

/// The view of one row.
pub open spec fn row_view(r: ScanFileRow) -> RowV {
    RowV {
        path: match r.path {
            Some(p) => Some(p@),
            None => None,
        },
        size: r.size,
        stats_json: match r.stats_json {
            Some(s) => Some(s@),
            None => None,
        },
        deletion_vector: match r.deletion_vector {
            Some(d) => Some(dv_view(d)),
            None => None,
        },
        partition_values: r.partition_values@.map(
            |i: int, e: (String, String)| (e.0@, e.1@),
        ),
    }
}

/// The view of one produced scan file.
pub struct ScanFileV {
    pub path: Seq<char>,
    pub size: i64,
    pub stats: Option<Stats>,
    pub dv_info: Option<DvV>,
    pub transform: Option<ExpressionV>,
    pub partition_values: Seq<(Seq<char>, Seq<char>)>,
}

/// The view of a produced scan file.
pub open spec fn scan_file_view(f: ScanFile) -> ScanFileV {
    ScanFileV {
        path: f.path@,
        size: f.size,
        stats: f.stats,
        dv_info: dv_info_view(f.dv_info),
        transform: match f.transform {
            Some(e) => Some(e@),
            None => None,
        },
        partition_values: f.partition_values@.map(
            |i: int, e: (String, String)| (e.0@, e.1@),
        ),
    }
}

/// The transform of one row, where one was recorded.
pub open spec fn transform_at(transforms: Seq<Option<ExpressionV>>, i: int) -> Option<
    ExpressionV,
> {
    if 0 <= i < transforms.len() {
        transforms[i]
    } else {
        None
    }
}

/// The scan file produced for row `i`.
pub open spec fn scan_file_of(
    rows: Seq<RowV>,
    transforms: Seq<Option<ExpressionV>>,
    i: int,
) -> ScanFileV {
    ScanFileV {
        path: rows[i].path->0,
        size: rows[i].size,
        stats: match rows[i].stats_json {
            Some(j) => match stats_num_records(j) {
                Some(n) => Some(Stats { num_records: n }),
                None => None,
            },
            None => None,
        },
        dv_info: rows[i].deletion_vector,
        transform: transform_at(transforms, i),
        partition_values: rows[i].partition_values,
    }
}

/// The scan files of the selected rows among the first `n`, in row order:
/// a row is visited when its selection bit is set and it carries a path.
pub open spec fn visited_files(
    rows: Seq<RowV>,
    sel: Seq<bool>,
    transforms: Seq<Option<ExpressionV>>,
    n: int,
) -> Seq<ScanFileV>
    decreases n,
{
    if n <= 0 {
        Seq::empty()
    } else {
        let rest = visited_files(rows, sel, transforms, n - 1);
        if sel[n - 1] && rows[n - 1].path is Some {
            rest.push(scan_file_of(rows, transforms, n - 1))
        } else {
            rest
        }
    }
}

/// The views of a row vector.
pub open spec fn rows_view(rows: Seq<ScanFileRow>) -> Seq<RowV> {
    rows.map(|i: int, r: ScanFileRow| row_view(r))
}

/// The views of a transform vector.
pub open spec fn transforms_view(ts: Seq<Option<Expression>>) -> Seq<Option<ExpressionV>> {
    ts.map(
        |i: int, t: Option<Expression>|
            match t {
                Some(e) => Some(crate::expressions::expr_view(e)),
                None => None,
            },
    )
}

impl ScanMetadata {
    /// Every row has a selection bit.
    pub open spec fn wf(self) -> bool {
        self.selection_vector@.len() >= self.rows@.len()
    }

    /// Yields each live data file of this batch, in row order: the rows
    /// whose selection bit is set and which carry a file path. Invalid
    /// statistics text is treated as absent statistics.
    pub fn visit_scan_files(&self) -> (r: Vec<ScanFile>)
        requires
            self.wf(),
        ensures
            scan_files_views(r@) == visited_files(
                rows_view(self.rows@),
                self.selection_vector@,
                transforms_view(self.scan_file_transforms@),
                self.rows@.len() as int,
            ),
    {
        let ghost rv = rows_view(self.rows@);
        let ghost tv = transforms_view(self.scan_file_transforms@);
        let mut out: Vec<ScanFile> = Vec::new();
        let n = self.rows.len();
        let mut i: usize = 0;
        while i < n
            invariant
                n == self.rows@.len(),
                self.selection_vector@.len() >= n,
                rv == rows_view(self.rows@),
                tv == transforms_view(self.scan_file_transforms@),
                rv.len() == n,
                tv.len() == self.scan_file_transforms@.len(),
                forall|j: int|
                    #![trigger self.rows@[j]]
                    0 <= j < n ==> rv[j] == row_view(self.rows@[j]),
                forall|j: int|
                    #![trigger self.scan_file_transforms@[j]]
                    0 <= j < tv.len() ==> tv[j] == (match self.scan_file_transforms@[j] {
                        Some(e) => Some(crate::expressions::expr_view(e)),
                        None => None,
                    }),
                i <= n,
                scan_files_views(out@) == visited_files(
                    rv,
                    self.selection_vector@,
                    tv,
                    i as int,
                ),
            decreases n - i,
        {
            let row = &self.rows[i];
            if self.selection_vector[i] {
                match &row.path {
                    Some(path) => {
                        let stats = match &row.stats_json {
                            Some(j) => parse_stats(j.as_str()),
                            None => None,
                        };
                        let dv_info = DvInfo {
                            deletion_vector: match &row.deletion_vector {
                                Some(d) => Some(d.clone()),
                                None => None,
                            },
                        };
                        let transform: Option<Expression> = if i
                            < self.scan_file_transforms.len() {
                            match &self.scan_file_transforms[i] {
                                Some(e) => Some(clone_expression(e)),
                                None => None,
                            }
                        } else {
                            None
                        };
                        let mut pvals: Vec<(String, String)> = Vec::new();
                        let m = row.partition_values.len();
                        for k in 0..m
                            invariant
                                m == row.partition_values@.len(),
                                pvals@.len() == k,
                                forall|q: int|
                                    #![trigger pvals@[q]]
                                    0 <= q < k ==> pvals@[q].0@ == row.partition_values@[q].0@
                                        && pvals@[q].1@ == row.partition_values@[q].1@,
                        {
                            let kk = row.partition_values[k].0.clone();
                            let vv = row.partition_values[k].1.clone();
                            pvals.push((kk, vv));
                        }
                        let ghost prev = out@;
                        let f = ScanFile {
                            path: path.clone(),
                            size: row.size,
                            stats,
                            dv_info,
                            transform,
                            partition_values: pvals,
                        };
                        proof {
                            assert(pvals@.map(|q: int, e: (String, String)| (e.0@, e.1@))
                                =~= row.partition_values@.map(
                                |q: int, e: (String, String)| (e.0@, e.1@),
                            ));
                            assert(scan_file_view(f) == scan_file_of(rv, tv, i as int));
                        }
                        out.push(f);
                        proof {
                            assert(scan_files_views(out@) =~= scan_files_views(prev).push(
                                scan_file_view(out@.last()),
                            ));
                        }
                    },
                    None => {},
                }
            }
            i = i + 1;
        }
        out
    }
}

/// The views of a vector of produced scan files.
pub open spec fn scan_files_views(fs: Seq<ScanFile>) -> Seq<ScanFileV> {
    fs.map(|i: int, f: ScanFile| scan_file_view(f))
}

impl Clone for DeletionVectorDescriptor {
    fn clone(&self) -> (r: Self)
        ensures
            dv_view(r) == dv_view(*self),
    {
        DeletionVectorDescriptor {
            storage_type: self.storage_type.clone(),
            path_or_inline_dv: self.path_or_inline_dv.clone(),
            offset: self.offset,
            size_in_bytes: self.size_in_bytes,
            cardinality: self.cardinality,
        }
    }
}

/// The storage side of the engine, as the deletion-vector reads need it:
/// fetches the serialized bitmap bytes a descriptor points at.
pub trait StorageHandler {
    fn read_dv_bytes(&mut self, dv: &DeletionVectorDescriptor, table_root: &str) -> Result<
        Vec<u8>,
        Error,
    >;
}

impl DvInfo {
    /// Reads this file's deletion bitmap through the storage handler;
    /// absence of a descriptor reads nothing, and a present descriptor is
    /// never silently dropped.
    pub fn get_treemap<S: StorageHandler>(
        &self,
        storage: &mut S,
        table_root: &str,
    ) -> (r: Result<Option<roaring::RoaringTreemap>, Error>)
        ensures
            self.deletion_vector is None ==> (r matches Ok(t) && t is None),
            r matches Ok(t) ==> (t is Some <==> self.deletion_vector is Some),
    {
        match &self.deletion_vector {
            Some(dv) => {
                let bytes = match storage.read_dv_bytes(dv, table_root) {
                    Ok(b) => b,
                    Err(e) => {
                        return Err(e);
                    },
                };
                match crate::deletion_vectors::treemap_deserialize(bytes.as_slice()) {
                    Ok(t) => Ok(Some(t)),
                    Err(e) => Err(e),
                }
            },
            None => Ok(None),
        }
    }

    /// Materializes this file's selection vector: true keeps a row, false
    /// drops it, and the vector runs to the greatest deleted index, so a
    /// nonempty vector ends in false. Absence of a descriptor means every
    /// row is selected, reported as nothing; a present descriptor is never
    /// silently dropped.
    pub fn get_selection_vector<S: StorageHandler>(
        &self,
        storage: &mut S,
        table_root: &str,
    ) -> (r: Result<Option<Vec<bool>>, Error>)
        ensures
            self.deletion_vector is None ==> (r matches Ok(v) && v is None),
            r matches Ok(v) ==> (v is Some <==> self.deletion_vector is Some),
            r matches Ok(Some(v)) ==> (v@.len() == 0 || v@[v@.len() - 1] == false),
    {
        let tm = match self.get_treemap(storage, table_root) {
            Ok(t) => t,
            Err(e) => {
                return Err(e);
            },
        };
        match tm {
            Some(t) => {
                match crate::deletion_vectors::treemap_max(&t) {
                    Some(m) => {
                        if m >= usize::MAX as u64 {
                            return Err(Error::generic("deletion vector index out of range"));
                        }
                    },
                    None => {},
                }
                Ok(Some(crate::deletion_vectors::deletion_treemap_to_bools(&t)))
            },
            None => Ok(None),
        }
    }

    /// The row indexes removed from the file, in ascending order; nothing
    /// when no descriptor is present, and never nothing when one is.
    pub fn get_row_indexes<S: StorageHandler>(
        &self,
        storage: &mut S,
        table_root: &str,
    ) -> (r: Result<Option<Vec<u64>>, Error>)
        ensures
            self.deletion_vector is None ==> (r matches Ok(v) && v is None),
            r matches Ok(v) ==> (v is Some <==> self.deletion_vector is Some),
            r matches Ok(Some(v)) ==> forall|i: int, j: int|
                0 <= i < j < v@.len() ==> v@[i] < v@[j],
    {
        let tm = match self.get_treemap(storage, table_root) {
            Ok(t) => t,
            Err(e) => {
                return Err(e);
            },
        };
        match tm {
            Some(t) => Ok(Some(crate::deletion_vectors::treemap_to_vec(&t))),
            None => Ok(None),
        }
    }
}

/// The evaluation side of the engine: applies a transform expression to a
/// batch of engine data under an input and output schema.
pub trait EvaluationHandler {
    /// The engine's opaque batch representation.
    type Data;

    /// The number of rows of a batch.
    fn data_len(&self, data: &Self::Data) -> usize;

    /// Evaluates the expression over the batch.
    fn evaluate_expression(
        &self,
        input_schema: &crate::schema::StructType,
        expression: &Expression,
        output_schema: &crate::schema::StructType,
        data: Self::Data,
    ) -> Result<Self::Data, Error>;
}

/// Applies a transform expression to convert data from physical to logical
/// form; absence of a transform passes the data through unchanged.
pub fn transform_to_logical<E: EvaluationHandler>(
    engine: &E,
    physical_data: E::Data,
    physical_schema: &crate::schema::StructType,
    logical_schema: &crate::schema::StructType,
    transform: &Option<Expression>,
) -> (r: Result<E::Data, Error>)
    ensures
        transform is None ==> (r matches Ok(d) && d == physical_data),
{
    match transform {
        Some(t) => engine.evaluate_expression(physical_schema, t, logical_schema, physical_data),
        None => Ok(physical_data),
    }
}


/// One batch of scan output: the engine's logical data and the optional
/// row mask derived from the deletion vector; a true keeps a row.
pub struct ScanResult<D> {
    pub raw_data: D,
    pub raw_mask: Option<Vec<bool>>,
}


} // verus!
