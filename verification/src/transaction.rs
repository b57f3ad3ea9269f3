//! Optimistic-concurrency write transactions: staging of add-file metadata,
//! per-app transaction markers and commit info, and an atomic commit that
//! writes the next version's log file through the engine's JSON handler.
use vstd::prelude::*;

verus! {

use crate::engine::{batch_lookup, batch_view, EngineBatch, JsonHandler};
use crate::error::{DeltaResult, Error};
use crate::expressions::{Expression, ExpressionV};
use crate::json::{json_object, json_quote, str_pairs_view};
use crate::scalars::{Scalar, ScalarV};
use crate::schema::{DataType, DataTypeV, FieldV, PrimitiveType, StructField, StructType};
use crate::snapshot::Snapshot;
use crate::strings::{dec_digits, int_chars, left_zero_pad};
use crate::Version;

/// The version string this library writes into commit info.
pub fn kernel_version() -> (r: String)
    ensures
        r@ == "0.1.0"@,
{
    String::from_str("0.1.0")
}

/// The view of the fields of the add-files metadata schema.
pub open spec fn add_files_schema_v() -> Seq<FieldV> {
    seq![
        FieldV {
            name: "path"@,
            data_type: DataTypeV::Primitive(PrimitiveType::String),
            nullable: false,
        },
        FieldV {
            name: "partitionValues"@,
            data_type: DataTypeV::Mapping(
                Box::new(DataTypeV::Primitive(PrimitiveType::String)),
                Box::new(DataTypeV::Primitive(PrimitiveType::String)),
                true,
            ),
            nullable: false,
        },
        FieldV {
            name: "size"@,
            data_type: DataTypeV::Primitive(PrimitiveType::Long),
            nullable: false,
        },
        FieldV {
            name: "modificationTime"@,
            data_type: DataTypeV::Primitive(PrimitiveType::Long),
            nullable: false,
        },
        FieldV {
            name: "dataChange"@,
            data_type: DataTypeV::Primitive(PrimitiveType::Boolean),
            nullable: false,
        },
    ]
}

/// The expected schema for engine data passed to `add_files`: each row
/// carries the metadata of one file to add to the table.
pub fn add_files_schema() -> (r: StructType)
    ensures
        r@ == add_files_schema_v(),
{
    let fields: Vec<StructField> = vec![
        StructField::not_null("path", DataType::string()),
        StructField::not_null(
            "partitionValues",
            DataType::Mapping(
                Box::new(
                    crate::schema::MapType::new(DataType::string(), DataType::string(), true),
                ),
            ),
        ),
        StructField::not_null("size", DataType::long()),
        StructField::not_null("modificationTime", DataType::long()),
        StructField::not_null("dataChange", DataType::boolean()),
    ];
    proof {
        crate::schema::lemma_fields_view(fields@);
        assert(crate::schema::fields_view(fields@) =~= add_files_schema_v());
    }
    StructType::new(fields)
}

/// One key-value pair of a string map scalar, as JSON object content:
/// nothing if the pair is not a string key with a string or null value.
pub open spec fn classify_map_pair(p: (ScalarV, ScalarV)) -> Option<
    (Seq<char>, Option<Seq<char>>),
> {
    match p {
        (ScalarV::String(k), ScalarV::String(v)) => Some((k, Some(v))),
        (ScalarV::String(k), ScalarV::Null(_)) => Some((k, None)),
        _ => None,
    }
}

/// The JSON object content of a string map scalar's pairs, or nothing if
/// any pair is not string-to-string.
pub open spec fn extract_pairs(pairs: Seq<(ScalarV, ScalarV)>) -> Option<
    Seq<(Seq<char>, Option<Seq<char>>)>,
>
    decreases pairs.len(),
{
    if pairs.len() == 0 {
        Some(Seq::empty())
    } else {
        match (extract_pairs(pairs.drop_last()), classify_map_pair(pairs.last())) {
            (Some(s), Some(e)) => Some(s.push(e)),
            _ => None,
        }
    }
}

/// If the whole extracts, so does every prefix.
pub proof fn lemma_extract_prefix(pairs: Seq<(ScalarV, ScalarV)>, j: int)
    requires
        0 <= j <= pairs.len(),
        extract_pairs(pairs) is Some,
    ensures
        extract_pairs(pairs.take(j)) is Some,
    decreases pairs.len(),
{
    if j < pairs.len() {
        assert(pairs.drop_last() =~= pairs.take(pairs.len() - 1));
        lemma_extract_prefix(pairs.drop_last(), j);
        assert(pairs.drop_last().take(j) =~= pairs.take(j));
    } else {
        assert(pairs.take(j) =~= pairs);
    }
}

/// Extracts the JSON object content of a string map's pairs.
pub fn extract_map_pairs(pairs: &Vec<(Scalar, Scalar)>) -> (r: Result<
    Vec<(String, Option<String>)>,
    Error,
>)
    ensures
        r matches Ok(v) ==> extract_pairs(crate::scalars::pairs_view(pairs@)) == Some(
            str_pairs_view(v@),
        ),
        r is Err <==> extract_pairs(crate::scalars::pairs_view(pairs@)) is None,
        r matches Err(e) ==> e is Schema,
{
    proof {
        crate::scalars::lemma_pairs_view(pairs@);
    }
    let ghost pv = crate::scalars::pairs_view(pairs@);
    let mut out: Vec<(String, Option<String>)> = Vec::new();
    let n = pairs.len();
    let mut i: usize = 0;
    while i < n
        invariant
            n == pairs@.len(),
            pv == crate::scalars::pairs_view(pairs@),
            pv.len() == n,
            i <= n,
            forall|j: int|
                #![trigger pairs@[j]]
                0 <= j < n ==> pv[j] == (pairs@[j].0@, pairs@[j].1@),
            extract_pairs(pv.take(i as int)) == Some(str_pairs_view(out@)),
        decreases n - i,
    {
        proof {
            assert(pv.take(i + 1).drop_last() =~= pv.take(i as int));
            assert(pv.take(i + 1).last() == pv[i as int]);
        }
        let k: String = match &pairs[i].0 {
            Scalar::String(ks) => ks.clone(),
            _ => {
                proof {
                    assert(classify_map_pair(pv[i as int]) is None);
                    assert(extract_pairs(pv.take(i + 1)) is None);
                    if extract_pairs(pv) is Some {
                        lemma_extract_prefix(pv, i + 1);
                    }
                }
                return Err(Error::schema("map key is not a string"));
            },
        };
        let v: Option<String> = match &pairs[i].1 {
            Scalar::String(vs) => Some(vs.clone()),
            Scalar::Null(_) => None,
            _ => {
                proof {
                    assert(classify_map_pair(pv[i as int]) is None);
                    assert(extract_pairs(pv.take(i + 1)) is None);
                    if extract_pairs(pv) is Some {
                        lemma_extract_prefix(pv, i + 1);
                    }
                }
                return Err(Error::schema("map value is not a string"));
            },
        };
        let ghost prev = out@;
        out.push((k, v));
        proof {
            assert(str_pairs_view(out@) =~= str_pairs_view(prev).push(
                (out@[out@.len() - 1].0@, match out@[out@.len() - 1].1 {
                    Some(x) => Some(x@),
                    None => None,
                }),
            ));
            assert(classify_map_pair(pv[i as int]) == Some(
                (out@[out@.len() - 1].0@, match out@[out@.len() - 1].1 {
                    Some(x) => Some(x@),
                    None => None,
                }),
            ));
        }
        i = i + 1;
    }
    proof {
        assert(pv.take(n as int) =~= pv);
    }
    Ok(out)
}

/// The engine commit info carried by a valid commit-info value: nothing if
/// the value has the wrong shape, an absent object for a null map, or the
/// map's entries.
pub open spec fn ecim_of(v: ScalarV) -> Option<Option<Seq<(Seq<char>, Option<Seq<char>>)>>> {
    match v {
        ScalarV::Null(dt) => {
            if dt matches crate::schema::DataTypeV::Mapping(kt, vt, _) && *kt
                == crate::schema::DataTypeV::Primitive(PrimitiveType::String) && *vt
                == crate::schema::DataTypeV::Primitive(PrimitiveType::String) {
                Some(None)
            } else {
                None
            }
        },
        ScalarV::Mapping(kt, vt, _, pairs) => {
            if kt == DataTypeV::Primitive(PrimitiveType::String) && vt == DataTypeV::Primitive(
                PrimitiveType::String,
            ) {
                match extract_pairs(pairs) {
                    Some(s) => Some(Some(s)),
                    None => None,
                }
            } else {
                None
            }
        },
        _ => None,
    }
}

/// The operation recorded in commit info: the given one, or `UNKNOWN`.
pub open spec fn operation_or_unknown(op: Option<Seq<char>>) -> Seq<char> {
    match op {
        Some(s) => s,
        None => "UNKNOWN"@,
    }
}

/// The commit-info action line: a JSON object holding the timestamp, the
/// operation, this library's version, an empty operation-parameters object,
/// and the engine's commit info map when one was given.
pub open spec fn commit_info_json(
    op: Option<Seq<char>>,
    ts: int,
    ecim: Option<Seq<(Seq<char>, Option<Seq<char>>)>>,
) -> Seq<char> {
    "{\"commitInfo\":{\"timestamp\":"@ + int_chars(ts) + ",\"operation\":"@ + json_quote(
        operation_or_unknown(op),
    ) + ",\"kernelVersion\":\"v"@ + "0.1.0"@ + "\",\"operationParameters\":{}"@ + (match ecim {
        Some(pairs) => ",\"engineCommitInfo\":"@ + json_object(pairs),
        None => Seq::empty(),
    }) + "}}"@
}

/// Builds the commit-info action line from the engine's commit info batch:
/// the batch must hold exactly one row, and its `engineCommitInfo` column
/// must be a string-to-string map or null.
pub fn generate_commit_info(
    operation: Option<&str>,
    timestamp: i64,
    engine_commit_info: &EngineBatch,
) -> (r: DeltaResult<String>)
    requires
        engine_commit_info.wf(),
    ensures
        engine_commit_info.num_rows != 1 ==> (r matches Err(e) && e matches
            Error::InvalidCommitInfo(m) && m@
            == "Engine commit info should have exactly one row, found "@ + dec_digits(
            engine_commit_info.num_rows as nat,
        )),
        engine_commit_info.num_rows == 1 && batch_lookup(
            batch_view(*engine_commit_info),
            "engineCommitInfo"@,
        ) is None ==> (r matches Err(e) && e is MissingColumn),
        engine_commit_info.num_rows == 1 && (batch_lookup(
            batch_view(*engine_commit_info),
            "engineCommitInfo"@,
        ) matches Some(vals) && (vals.len() == 1 && ecim_of(vals[0]) is None)) ==> (r matches Err(
            e,
        ) && e is Schema),
        engine_commit_info.num_rows == 1 && (batch_lookup(
            batch_view(*engine_commit_info),
            "engineCommitInfo"@,
        ) matches Some(vals) && (vals.len() == 1 && ecim_of(vals[0]) is Some)) ==> r is Ok,
        r matches Ok(line) ==> engine_commit_info.num_rows == 1 && (batch_lookup(
            batch_view(*engine_commit_info),
            "engineCommitInfo"@,
        ) matches Some(vals) && (vals.len() == 1 && (ecim_of(vals[0]) matches Some(ecim) && line@
            == commit_info_json(
            match operation {
                Some(s) => Some(s@),
                None => None,
            },
            timestamp as int,
            ecim,
        )))),
    {
    if engine_commit_info.len() != 1 {
        let mut msg = String::from_str("Engine commit info should have exactly one row, found ");
        let n = crate::strings::u64_to_string(engine_commit_info.len() as u64);
        msg.append(n.as_str());
        return Err(Error::InvalidCommitInfo(msg));
    }
    let col = match engine_commit_info.column("engineCommitInfo") {
        Some(c) => c,
        None => {
            return Err(Error::missing_column("engineCommitInfo"));
        },
    };
    proof {
        crate::scalars::lemma_elems_view(col@);
    }
    proof {
        assert(col@.len() == 1);
    }
    let value = &col[0];
    let ghost vals = crate::scalars::elems_view(col@);
    proof {
        assert(vals[0] == value@);
    }
    let ecim: Option<Vec<(String, Option<String>)>> = match value {
        Scalar::Null(dt) => {
            let ok = match dt {
                DataType::Mapping(mt) => crate::schema::data_type_eq(
                    mt.key_type(),
                    &DataType::string(),
                ) && crate::schema::data_type_eq(mt.value_type(), &DataType::string()),
                _ => false,
            };
            if !ok {
                return Err(
                    Error::schema("engineCommitInfo must be a map from string to string"),
                );
            }
            None
        },
        Scalar::Mapping(md) => {
            let kt_ok = crate::schema::data_type_eq(md.data_type.key_type(), &DataType::string());
            let vt_ok = crate::schema::data_type_eq(
                md.data_type.value_type(),
                &DataType::string(),
            );
            if !(kt_ok && vt_ok) {
                return Err(
                    Error::schema("engineCommitInfo must be a map from string to string"),
                );
            }
            match extract_map_pairs(&md.pairs) {
                Ok(pairs) => Some(pairs),
                Err(e) => {
                    return Err(e);
                },
            }
        },
        _ => {
            return Err(Error::schema("engineCommitInfo must be a map from string to string"));
        },
    };
    let mut out = String::new();
    out.append("{\"commitInfo\":{\"timestamp\":");
    let ts = crate::strings::i64_to_string(timestamp);
    out.append(ts.as_str());
    out.append(",\"operation\":");
    match operation {
        Some(op) => {
            crate::json::append_json_quoted(&mut out, op);
        },
        None => {
            crate::json::append_json_quoted(&mut out, "UNKNOWN");
        },
    }
    out.append(",\"kernelVersion\":\"v");
    let kv = kernel_version();
    out.append(kv.as_str());
    out.append("\",\"operationParameters\":{}");
    match &ecim {
        Some(pairs) => {
            out.append(",\"engineCommitInfo\":");
            crate::json::append_json_object(&mut out, pairs);
        },
        None => {},
    }
    out.append("}}");
    proof {
        let opv = (match operation {
            Some(s) => Some(s@),
            None => None,
        });
        let ghost ecimv: Option<Seq<(Seq<char>, Option<Seq<char>>)>> = (match ecim {
            Some(pairs) => Some(str_pairs_view(pairs@)),
            None => None,
        });
        assert(ecim_of(vals[0]) == Some(ecimv));
        assert(out@ =~= commit_info_json(opv, timestamp as int, ecimv));
    }
    Ok(out)
}

/// Whether a batch conforms to the add-files schema: the five columns are
/// present with one value per row, and every row is valid.
pub open spec fn add_batch_ok(b: EngineBatch) -> bool {
    &&& batch_lookup(batch_view(b), "path"@) matches Some(p) && p.len() == b.num_rows
    &&& batch_lookup(batch_view(b), "partitionValues"@) matches Some(pv) && pv.len() == b.num_rows
    &&& batch_lookup(batch_view(b), "size"@) matches Some(sz) && sz.len() == b.num_rows
    &&& batch_lookup(batch_view(b), "modificationTime"@) matches Some(m) && m.len() == b.num_rows
    &&& batch_lookup(batch_view(b), "dataChange"@) matches Some(d) && d.len() == b.num_rows
    &&& forall|k: int| 0 <= k < b.num_rows ==> #[trigger] add_row_ok(batch_view(b), k)
}

/// Whether row `k` of the batch is a valid add-files row: string path, a
/// string-to-string partition map, long size and modification time, and a
/// boolean data-change flag.
pub open spec fn add_row_ok(cols: Seq<(Seq<char>, Seq<ScalarV>)>, k: int) -> bool {
    &&& batch_lookup(cols, "path"@) matches Some(p) && p[k] is String
    &&& batch_lookup(cols, "partitionValues"@) matches Some(pvs) && pvs[k] matches
        ScalarV::Mapping(kt, vt, _, pairs) && kt == DataTypeV::Primitive(PrimitiveType::String)
        && vt == DataTypeV::Primitive(PrimitiveType::String) && extract_pairs(pairs) is Some
    &&& batch_lookup(cols, "size"@) matches Some(s) && s[k] is Long
    &&& batch_lookup(cols, "modificationTime"@) matches Some(m) && m[k] is Long
    &&& batch_lookup(cols, "dataChange"@) matches Some(d) && d[k] is Boolean
}

/// The add action line for one file.
pub open spec fn add_action_json(
    path: Seq<char>,
    parts: Seq<(Seq<char>, Option<Seq<char>>)>,
    size: int,
    mod_time: int,
    data_change: bool,
) -> Seq<char> {
    "{\"add\":{\"path\":"@ + json_quote(path) + ",\"partitionValues\":"@ + json_object(parts)
        + ",\"size\":"@ + int_chars(size) + ",\"modificationTime\":"@ + int_chars(mod_time)
        + ",\"dataChange\":"@ + (if data_change {
        "true"@
    } else {
        "false"@
    }) + "}}"@
}

/// The add action line of row `k` of a valid batch.
pub open spec fn add_row_json(cols: Seq<(Seq<char>, Seq<ScalarV>)>, k: int) -> Seq<char> {
    let p = batch_lookup(cols, "path"@)->0[k];
    let pv = batch_lookup(cols, "partitionValues"@)->0[k];
    let s = batch_lookup(cols, "size"@)->0[k];
    let m = batch_lookup(cols, "modificationTime"@)->0[k];
    let d = batch_lookup(cols, "dataChange"@)->0[k];
    add_action_json(
        p->String_0,
        extract_pairs(pv->Mapping_3)->0,
        s->Long_0 as int,
        m->Long_0 as int,
        d->Boolean_0,
    )
}

/// Converts one batch of add-files metadata into add action lines, one per
/// row, rejecting a batch that does not conform to the add-files schema.
pub fn generate_adds_batch(batch: &EngineBatch) -> (r: DeltaResult<Vec<String>>)
    requires
        batch.wf(),
    ensures
        r is Ok <==> add_batch_ok(*batch),
        r matches Ok(lines) ==> lines@.len() == batch.num_rows && (forall|k: int|
            0 <= k < batch.num_rows ==> #[trigger] lines@[k]@ == add_row_json(
                batch_view(*batch),
                k,
            )),
        r matches Err(e) ==> e is Schema,
{
    let ghost bv = batch_view(*batch);
    let nrows = batch.len();
    let paths = match batch.column("path") {
        Some(c) => c,
        None => {
            return Err(Error::schema("add files batch is missing the path column"));
        },
    };
    let parts = match batch.column("partitionValues") {
        Some(c) => c,
        None => {
            return Err(Error::schema("add files batch is missing the partitionValues column"));
        },
    };
    let sizes = match batch.column("size") {
        Some(c) => c,
        None => {
            return Err(Error::schema("add files batch is missing the size column"));
        },
    };
    let mods = match batch.column("modificationTime") {
        Some(c) => c,
        None => {
            return Err(Error::schema("add files batch is missing the modificationTime column"));
        },
    };
    let changes = match batch.column("dataChange") {
        Some(c) => c,
        None => {
            return Err(Error::schema("add files batch is missing the dataChange column"));
        },
    };
    proof {
        crate::scalars::lemma_elems_view(paths@);
        crate::scalars::lemma_elems_view(parts@);
        crate::scalars::lemma_elems_view(sizes@);
        crate::scalars::lemma_elems_view(mods@);
        crate::scalars::lemma_elems_view(changes@);
    }
    if paths.len() != nrows || parts.len() != nrows || sizes.len() != nrows || mods.len() != nrows
        || changes.len() != nrows {
        return Err(Error::schema("add files batch has ragged columns"));
    }
    let mut lines: Vec<String> = Vec::new();
    let mut k: usize = 0;
    while k < nrows
        invariant
            bv == batch_view(*batch),
            nrows == batch.num_rows,
            paths@.len() == nrows && parts@.len() == nrows && sizes@.len() == nrows && mods@.len()
                == nrows && changes@.len() == nrows,
            batch_lookup(bv, "path"@) == Some(crate::scalars::elems_view(paths@)),
            batch_lookup(bv, "partitionValues"@) == Some(crate::scalars::elems_view(parts@)),
            batch_lookup(bv, "size"@) == Some(crate::scalars::elems_view(sizes@)),
            batch_lookup(bv, "modificationTime"@) == Some(crate::scalars::elems_view(mods@)),
            batch_lookup(bv, "dataChange"@) == Some(crate::scalars::elems_view(changes@)),
            forall|j: int|
                #![trigger paths@[j]]
                0 <= j < nrows ==> crate::scalars::elems_view(paths@)[j] == crate::scalars::sc_view(
                    paths@[j],
                ),
            forall|j: int|
                #![trigger parts@[j]]
                0 <= j < nrows ==> crate::scalars::elems_view(parts@)[j] == crate::scalars::sc_view(
                    parts@[j],
                ),
            forall|j: int|
                #![trigger sizes@[j]]
                0 <= j < nrows ==> crate::scalars::elems_view(sizes@)[j] == crate::scalars::sc_view(
                    sizes@[j],
                ),
            forall|j: int|
                #![trigger mods@[j]]
                0 <= j < nrows ==> crate::scalars::elems_view(mods@)[j] == crate::scalars::sc_view(
                    mods@[j],
                ),
            forall|j: int|
                #![trigger changes@[j]]
                0 <= j < nrows ==> crate::scalars::elems_view(changes@)[j]
                    == crate::scalars::sc_view(changes@[j]),
            k <= nrows,
            lines@.len() == k,
            forall|j: int| 0 <= j < k ==> #[trigger] add_row_ok(bv, j),
            forall|j: int|
                #![trigger lines@[j]]
                0 <= j < k ==> lines@[j]@ == add_row_json(bv, j),
        decreases nrows - k,
    {
        let path: &String = match &paths[k] {
            Scalar::String(p) => p,
            _ => {
                proof {
                    assert(!add_row_ok(bv, k as int));
                }
                return Err(Error::schema("add files path must be a string"));
            },
        };
        let part_pairs: Vec<(String, Option<String>)> = match &parts[k] {
            Scalar::Mapping(md) => {
                let kt_ok = crate::schema::data_type_eq(
                    md.data_type.key_type(),
                    &DataType::string(),
                );
                let vt_ok = crate::schema::data_type_eq(
                    md.data_type.value_type(),
                    &DataType::string(),
                );
                if !(kt_ok && vt_ok) {
                    proof {
                        assert(!add_row_ok(bv, k as int));
                    }
                    return Err(Error::schema("partitionValues must map string to string"));
                }
                match extract_map_pairs(&md.pairs) {
                    Ok(p) => p,
                    Err(e) => {
                        proof {
                            assert(!add_row_ok(bv, k as int));
                        }
                        return Err(e);
                    },
                }
            },
            _ => {
                proof {
                    assert(!add_row_ok(bv, k as int));
                }
                return Err(Error::schema("partitionValues must be a map"));
            },
        };
        let size: i64 = match &sizes[k] {
            Scalar::Long(v) => *v,
            _ => {
                proof {
                    assert(!add_row_ok(bv, k as int));
                }
                return Err(Error::schema("add files size must be a long"));
            },
        };
        let mod_time: i64 = match &mods[k] {
            Scalar::Long(v) => *v,
            _ => {
                proof {
                    assert(!add_row_ok(bv, k as int));
                }
                return Err(Error::schema("add files modificationTime must be a long"));
            },
        };
        let data_change: bool = match &changes[k] {
            Scalar::Boolean(v) => *v,
            _ => {
                proof {
                    assert(!add_row_ok(bv, k as int));
                }
                return Err(Error::schema("add files dataChange must be a boolean"));
            },
        };
        let mut line = String::new();
        line.append("{\"add\":{\"path\":");
        crate::json::append_json_quoted(&mut line, path.as_str());
        line.append(",\"partitionValues\":");
        crate::json::append_json_object(&mut line, &part_pairs);
        line.append(",\"size\":");
        let ss = crate::strings::i64_to_string(size);
        line.append(ss.as_str());
        line.append(",\"modificationTime\":");
        let ms = crate::strings::i64_to_string(mod_time);
        line.append(ms.as_str());
        line.append(",\"dataChange\":");
        if data_change {
            line.append("true");
        } else {
            line.append("false");
        }
        line.append("}}");
        proof {
            assert(add_row_ok(bv, k as int));
            assert(line@ == add_row_json(bv, k as int));
        }
        lines.push(line);
        k = k + 1;
    }
    Ok(lines)
}

/// The action lines of one conforming batch, one per row.
pub open spec fn batch_add_lines_v(b: EngineBatch) -> Seq<Seq<char>> {
    Seq::new(b.num_rows as nat, |k: int| add_row_json(batch_view(b), k))
}

/// The action lines of a run of conforming batches, in batch order.
pub open spec fn all_add_lines(batches: Seq<EngineBatch>) -> Seq<Seq<char>>
    decreases batches.len(),
{
    if batches.len() == 0 {
        Seq::empty()
    } else {
        all_add_lines(batches.drop_last()) + batch_add_lines_v(batches.last())
    }
}

/// The character sequences of a run of lines.
pub open spec fn lines_view(ls: Seq<String>) -> Seq<Seq<char>> {
    ls.map(|i: int, l: String| l@)
}

/// Converts batches of add-files metadata into add action lines, in batch
/// order.
pub fn generate_adds(batches: &Vec<EngineBatch>) -> (r: DeltaResult<Vec<String>>)
    requires
        forall|i: int| 0 <= i < batches@.len() ==> (#[trigger] batches@[i]).wf(),
    ensures
        r is Ok <==> (forall|i: int|
            0 <= i < batches@.len() ==> add_batch_ok(#[trigger] batches@[i])),
        r matches Ok(lines) ==> lines_view(lines@) == all_add_lines(batches@),
        r matches Err(e) ==> e is Schema,
{
    let mut lines: Vec<String> = Vec::new();
    let n = batches.len();
    let mut i: usize = 0;
    while i < n
        invariant
            n == batches@.len(),
            i <= n,
            forall|j: int| 0 <= j < n ==> (#[trigger] batches@[j]).wf(),
            forall|j: int| 0 <= j < i ==> add_batch_ok(#[trigger] batches@[j]),
            lines_view(lines@) == all_add_lines(batches@.take(i as int)),
        decreases n - i,
    {
        let batch_lines = match generate_adds_batch(&batches[i]) {
            Ok(ls) => ls,
            Err(e) => {
                return Err(e);
            },
        };
        proof {
            assert(batches@.take(i + 1).drop_last() =~= batches@.take(i as int));
            assert(batches@.take(i + 1).last() == batches@[i as int]);
            assert(lines_view(batch_lines@) =~= batch_add_lines_v(batches@[i as int]));
        }
        let ghost prev = lines@;
        let mut moved = batch_lines;
        lines.append(&mut moved);
        proof {
            assert(lines_view(lines@) =~= lines_view(prev) + lines_view(batch_lines@));
        }
        i = i + 1;
    }
    proof {
        assert(batches@.take(n as int) =~= batches@);
    }
    Ok(lines)
}

/// A per-application transaction marker.
#[derive(Debug, Clone)]
pub struct SetTransaction {
    pub app_id: String,
    pub version: i64,
    pub last_updated: Option<i64>,
}

impl SetTransaction {
    pub fn new(app_id: String, version: i64, last_updated: Option<i64>) -> (r: SetTransaction)
        ensures
            r == (SetTransaction { app_id, version, last_updated }),
    {
        SetTransaction { app_id, version, last_updated }
    }
}

/// The txn action line for one transaction marker.
pub open spec fn txn_action_json(app_id: Seq<char>, version: int, last_updated: Option<int>) -> Seq<
    char,
> {
    "{\"txn\":{\"appId\":"@ + json_quote(app_id) + ",\"version\":"@ + int_chars(version) + (
    match last_updated {
        Some(lu) => ",\"lastUpdated\":"@ + int_chars(lu),
        None => Seq::empty(),
    }) + "}}"@
}

/// Renders the txn action line for one transaction marker.
pub fn generate_txn_line(t: &SetTransaction) -> (r: String)
    ensures
        r@ == txn_action_json(
            t.app_id@,
            t.version as int,
            match t.last_updated {
                Some(lu) => Some(lu as int),
                None => None,
            },
        ),
{
    let mut out = String::new();
    out.append("{\"txn\":{\"appId\":");
    crate::json::append_json_quoted(&mut out, t.app_id.as_str());
    out.append(",\"version\":");
    let vs = crate::strings::i64_to_string(t.version);
    out.append(vs.as_str());
    match t.last_updated {
        Some(lu) => {
            out.append(",\"lastUpdated\":");
            let ls = crate::strings::i64_to_string(lu);
            out.append(ls.as_str());
        },
        None => {},
    }
    out.append("}}");
    out
}

/// The txn action lines of a run of transaction markers, in order.
pub open spec fn txn_lines_v(stv: Seq<SetTransaction>) -> Seq<Seq<char>> {
    Seq::new(
        stv.len(),
        |j: int|
            txn_action_json(
                stv[j].app_id@,
                stv[j].version as int,
                match stv[j].last_updated {
                    Some(lu) => Some(lu as int),
                    None => None,
                },
            ),
    )
}

/// Whether a staged commit-info batch has the shape a commit needs: one
/// row whose `engineCommitInfo` column holds a string map or a typed null.
pub open spec fn commit_info_ok(ci: EngineBatch) -> bool {
    &&& ci.num_rows == 1
    &&& batch_lookup(batch_view(ci), "engineCommitInfo"@) matches Some(vals) && vals.len() == 1
        && ecim_of(vals[0]) is Some
}

/// Whether every staged add-files batch conforms to the add-files schema.
pub open spec fn staged_adds_ok(batches: Seq<EngineBatch>) -> bool {
    forall|i: int| 0 <= i < batches.len() ==> add_batch_ok(#[trigger] batches[i])
}

/// The application identifiers of a list of transaction markers.
pub open spec fn app_ids_of(s: Seq<SetTransaction>) -> Seq<Seq<char>> {
    s.map(|i: int, t: SetTransaction| t.app_id@)
}

/// Whether some application identifier occurs twice.
pub open spec fn has_dup_ids(ids: Seq<Seq<char>>) -> bool {
    exists|i: int, j: int| 0 <= i < j < ids.len() && ids[i] == ids[j]
}

/// Whether `j` is the first position whose identifier already occurred.
pub open spec fn is_first_dup(ids: Seq<Seq<char>>, j: int) -> bool {
    &&& 0 <= j < ids.len()
    &&& exists|i: int| 0 <= i < j && ids[i] == ids[j]
    &&& forall|a: int, b: int| 0 <= a < b < j ==> ids[a] != ids[b]
}

/// Finds a duplicated application identifier, if any.
fn find_dup_app_id(s: &Vec<SetTransaction>) -> (r: Option<usize>)
    ensures
        match r {
            Some(j) => is_first_dup(app_ids_of(s@), j as int),
            None => !has_dup_ids(app_ids_of(s@)),
        },
{
    let ghost ids = app_ids_of(s@);
    let n = s.len();
    for j in 0..n
        invariant
            n == s@.len(),
            ids == app_ids_of(s@),
            ids.len() == n,
            forall|a: int, b: int| 0 <= a < b < j ==> ids[a] != ids[b],
    {
        for i in 0..j
            invariant
                n == s@.len(),
                ids == app_ids_of(s@),
                ids.len() == n,
                j < n,
                forall|a: int, b: int| 0 <= a < b < j ==> ids[a] != ids[b],
                forall|a: int| 0 <= a < i ==> ids[a] != ids[j as int],
        {
            proof {
                assert(ids[i as int] == s@[i as int].app_id@);
                assert(ids[j as int] == s@[j as int].app_id@);
            }
            if crate::strings::str_eq(s[i].app_id.as_str(), s[j].app_id.as_str()) {
                return Some(j);
            }
        }
    }
    None
}

/// The path of the commit file for a version under a table root.
pub open spec fn commit_path_of(root: Seq<char>, v: nat) -> Seq<char> {
    root + "/_delta_log/"@ + left_zero_pad(dec_digits(v), 20) + ".json"@
}

/// Builds the commit file path for a version under a table root.
pub fn build_commit_path(root: &str, v: u64) -> (r: String)
    ensures
        r@ == commit_path_of(root@, v as nat),
{
    let mut out = String::from_str(root);
    out.append("/_delta_log/");
    let padded = crate::strings::u64_to_padded_string(v, 20);
    out.append(padded.as_str());
    out.append(".json");
    out
}

/// Relies on std's `SystemTime::now`: the milliseconds elapsed since the
/// UNIX epoch, when the clock reads after the epoch and the count fits; the
/// value depends on the machine's clock, so nothing is promised of it.
#[verifier::external_body]
fn current_time_millis() -> (r: Option<i64>) {
    std::time::SystemTime::now().duration_since(std::time::UNIX_EPOCH).ok().and_then(
        |d| i64::try_from(d.as_millis()).ok(),
    )
}

/// An in-progress write to a table: staged changes accumulate here and are
/// committed atomically.
#[derive(Debug)]
pub struct Transaction {
    pub read_snapshot: Snapshot,
    pub operation: Option<String>,
    pub commit_info: Option<EngineBatch>,
    pub add_files_metadata: Vec<EngineBatch>,
    pub set_transactions: Vec<SetTransaction>,
    /// The commit-wide timestamp in milliseconds since the epoch, captured
    /// once at creation so every action of the commit agrees.
    pub commit_timestamp: i64,
}

/// The result of committing a transaction: committed at the written
/// version, or a conflict carrying the transaction back for retry.
#[derive(Debug)]
pub enum CommitResult {
    /// The transaction was successfully committed at the version.
    Committed(Version),
    /// The commit conflicted with an existing file at the version; the
    /// transaction is returned so the caller can retry.
    Conflict(Transaction, Version),
}

impl Transaction {
    /// Starts a transaction from a snapshot, refusing tables whose
    /// configuration does not support writes.
    pub fn try_new(snapshot: Snapshot) -> (r: DeltaResult<Transaction>)
        ensures
            r matches Ok(t) ==> t.read_snapshot == snapshot && t.operation is None
                && t.commit_info is None && t.add_files_metadata@.len() == 0
                && t.set_transactions@.len() == 0,
            !snapshot.supports_writes ==> r is Err,
    {
        match snapshot.ensure_write_supported() {
            Ok(_) => {},
            Err(e) => {
                return Err(e);
            },
        }
        let commit_timestamp = match current_time_millis() {
            Some(t) => t,
            None => {
                return Err(Error::generic("Failed to get current time for commit_timestamp"));
            },
        };
        Ok(
            Transaction {
                read_snapshot: snapshot,
                operation: None,
                commit_info: None,
                add_files_metadata: Vec::new(),
                set_transactions: Vec::new(),
                commit_timestamp,
            },
        )
    }

    /// Sets the operation recorded in the commit.
    pub fn with_operation(self, operation: String) -> (r: Self)
        ensures
            r.operation == Some(operation),
            r.read_snapshot == self.read_snapshot,
            r.commit_info == self.commit_info,
            r.add_files_metadata == self.add_files_metadata,
            r.set_transactions == self.set_transactions,
            r.commit_timestamp == self.commit_timestamp,
    {
        Transaction { operation: Some(operation), ..self }
    }

    /// Stages a per-application transaction marker; a duplicated
    /// application identifier is detected at commit time.
    pub fn with_transaction_id(self, app_id: String, version: i64) -> (r: Self)
        ensures
            r.set_transactions@ == self.set_transactions@.push(
                SetTransaction {
                    app_id,
                    version,
                    last_updated: Some(self.commit_timestamp),
                },
            ),
            r.read_snapshot == self.read_snapshot,
            r.operation == self.operation,
            r.commit_info == self.commit_info,
            r.add_files_metadata == self.add_files_metadata,
            r.commit_timestamp == self.commit_timestamp,
    {
        let mut s = self;
        let last_updated = Some(s.commit_timestamp);
        s.set_transactions.push(SetTransaction { app_id, version, last_updated });
        s
    }

    /// Stages the commit info; the engine must provide one before commit.
    pub fn with_commit_info(self, commit_info: EngineBatch) -> (r: Self)
        ensures
            r.commit_info == Some(commit_info),
            r.read_snapshot == self.read_snapshot,
            r.operation == self.operation,
            r.add_files_metadata == self.add_files_metadata,
            r.set_transactions == self.set_transactions,
            r.commit_timestamp == self.commit_timestamp,
    {
        Transaction { commit_info: Some(commit_info), ..self }
    }

    /// Stages one batch of add-files metadata, conforming to
    /// `add_files_schema`.
    pub fn add_files(&mut self, add_metadata: EngineBatch)
        ensures
            final(self).add_files_metadata@ == old(self).add_files_metadata@.push(add_metadata),
            final(self).read_snapshot == old(self).read_snapshot,
            final(self).operation == old(self).operation,
            final(self).commit_info == old(self).commit_info,
            final(self).set_transactions == old(self).set_transactions,
            final(self).commit_timestamp == old(self).commit_timestamp,
    {
        self.add_files_metadata.push(add_metadata);
    }

    /// The logical-to-physical transform for writers: passes through every
    /// schema column that is not a partition column.
    pub fn generate_logical_to_physical(&self) -> (r: Expression)
        ensures
            r@ == ExpressionV::Struct(
                l2p_exprs(
                    self.read_snapshot.schema@,
                    names_view(self.read_snapshot.partition_columns@),
                ),
            ),
    {
        let ghost fields = self.read_snapshot.schema@;
        let ghost parts = names_view(self.read_snapshot.partition_columns@);
        proof {
            crate::schema::lemma_fields_view(self.read_snapshot.schema.fields@);
        }
        let mut children: Vec<Expression> = Vec::new();
        let n = self.read_snapshot.schema.fields.len();
        let mut i: usize = 0;
        while i < n
            invariant
                n == self.read_snapshot.schema.fields@.len(),
                fields == self.read_snapshot.schema@,
                parts == names_view(self.read_snapshot.partition_columns@),
                fields.len() == n,
                i <= n,
                forall|j: int|
                    #![trigger self.read_snapshot.schema.fields@[j]]
                    0 <= j < n ==> fields[j] == crate::schema::sf_view(
                        self.read_snapshot.schema.fields@[j],
                    ),
                crate::expressions::exprs_view(children@) == l2p_exprs(
                    fields.take(i as int),
                    parts,
                ),
            decreases n - i,
        {
            proof {
                assert(fields.take(i + 1).drop_last() =~= fields.take(i as int));
                assert(fields.take(i + 1).last() == fields[i as int]);
            }
            let f = &self.read_snapshot.schema.fields[i];
            if !contains_name(&self.read_snapshot.partition_columns, f.name().as_str()) {
                let ghost prev = children@;
                children.push(Expression::column(f.name().as_str()));
                proof {
                    crate::expressions::lemma_exprs_view(prev);
                    crate::expressions::lemma_exprs_view(children@);
                    assert(children@.drop_last() =~= prev);
                    assert(crate::expressions::exprs_view(children@)
                        == crate::expressions::exprs_view(prev).push(
                        crate::expressions::expr_view(children@.last()),
                    ));
                }
            }
            i = i + 1;
        }
        proof {
            assert(fields.take(n as int) =~= fields);
        }
        Expression::struct_from(children)
    }

    /// Validates the staged changes and renders the commit: the commit-info
    /// line first, then one add line per staged file, then one txn line per
    /// transaction marker, addressed to the next version's commit file.
    /// Nothing is rendered for a transaction that fails validation.
    pub fn prepare_commit(&self) -> (r: DeltaResult<PreparedCommit>)
        requires
            self.read_snapshot.version < u64::MAX,
            self.commit_info matches Some(ci) ==> ci.wf(),
            forall|i: int|
                0 <= i < self.add_files_metadata@.len() ==> (
                #[trigger] self.add_files_metadata@[i]).wf(),
        ensures
            has_dup_ids(app_ids_of(self.set_transactions@)) ==> (r matches Err(e) && (e matches
                Error::Generic(m) && exists|j: int|
                #[trigger] is_first_dup(app_ids_of(self.set_transactions@), j) && m@ == "app_id "@
                    + app_ids_of(self.set_transactions@)[j] + " already exists in transaction"@)),
            !has_dup_ids(app_ids_of(self.set_transactions@)) && self.commit_info is None ==> (
            r matches Err(e) && e is MissingCommitInfo),
            !has_dup_ids(app_ids_of(self.set_transactions@)) && (self.commit_info matches Some(ci)
                && !commit_info_ok(ci)) ==> (r matches Err(e) && (e is InvalidCommitInfo || e
                is MissingColumn || e is Schema)),
            !has_dup_ids(app_ids_of(self.set_transactions@)) && (self.commit_info matches Some(ci)
                && commit_info_ok(ci)) && !staged_adds_ok(self.add_files_metadata@) ==> (
            r matches Err(e) && e is Schema),
            !has_dup_ids(app_ids_of(self.set_transactions@)) && (self.commit_info matches Some(ci)
                && commit_info_ok(ci)) && staged_adds_ok(self.add_files_metadata@) ==> r is Ok,
            r matches Ok(pc) ==> (self.commit_info matches Some(ci) && (commit_info_ok(ci) && {
                let vals = batch_lookup(batch_view(ci), "engineCommitInfo"@)->0;
                &&& pc.version == self.read_snapshot.version + 1
                &&& pc.path@ == commit_path_of(
                    self.read_snapshot.table_root@,
                    (self.read_snapshot.version + 1) as nat,
                )
                &&& lines_view(pc.actions@) == seq![
                    commit_info_json(
                        match self.operation {
                            Some(op) => Some(op@),
                            None => None,
                        },
                        self.commit_timestamp as int,
                        ecim_of(vals[0])->0,
                    ),
                ] + all_add_lines(self.add_files_metadata@) + txn_lines_v(self.set_transactions@)
            })),
    {
        match find_dup_app_id(&self.set_transactions) {
            Some(j) => {
                let mut msg = String::from_str("app_id ");
                msg.append(self.set_transactions[j].app_id.as_str());
                msg.append(" already exists in transaction");
                proof {
                    assert(app_ids_of(self.set_transactions@)[j as int]
                        == self.set_transactions@[j as int].app_id@);
                    assert(msg@ == "app_id "@ + app_ids_of(self.set_transactions@)[j as int]
                        + " already exists in transaction"@);
                }
                return Err(Error::Generic(msg));
            },
            None => {},
        }
        let engine_commit_info = match &self.commit_info {
            Some(ci) => ci,
            None => {
                return Err(Error::MissingCommitInfo);
            },
        };
        proof {
            crate::engine::lemma_batch_lookup_len(*engine_commit_info, "engineCommitInfo"@);
        }
        let commit_info_line = match generate_commit_info(
            match &self.operation {
                Some(op) => Some(op.as_str()),
                None => None,
            },
            self.commit_timestamp,
            engine_commit_info,
        ) {
            Ok(line) => line,
            Err(e) => {
                return Err(e);
            },
        };
        let ghost ci_json = commit_info_line@;
        let mut actions: Vec<String> = Vec::new();
        actions.push(commit_info_line);
        let add_lines = match generate_adds(&self.add_files_metadata) {
            Ok(ls) => ls,
            Err(e) => {
                return Err(e);
            },
        };
        proof {
            assert(lines_view(actions@) =~= seq![ci_json]);
        }
        let ghost adds_v = lines_view(add_lines@);
        let mut moved = add_lines;
        actions.append(&mut moved);
        proof {
            assert(lines_view(actions@) =~= seq![ci_json] + adds_v);
        }
        let ghost stv = self.set_transactions@;
        let n = self.set_transactions.len();
        let mut i: usize = 0;
        while i < n
            invariant
                n == self.set_transactions@.len(),
                stv == self.set_transactions@,
                i <= n,
                lines_view(actions@) == seq![ci_json] + adds_v + txn_lines_v(stv).take(i as int),
            decreases n - i,
        {
            let line = generate_txn_line(&self.set_transactions[i]);
            proof {
                assert(txn_lines_v(stv)[i as int] == line@);
                assert(txn_lines_v(stv).take(i + 1) =~= txn_lines_v(stv).take(i as int).push(
                    txn_lines_v(stv)[i as int],
                ));
            }
            let ghost prev_actions = actions@;
            actions.push(line);
            proof {
                let old_target = seq![ci_json] + adds_v + txn_lines_v(stv).take(i as int);
                let new_target = seq![ci_json] + adds_v + txn_lines_v(stv).take(i + 1);
                assert(new_target =~= old_target.push(txn_lines_v(stv)[i as int]));
                assert forall|k: int| 0 <= k < actions@.len() implies #[trigger] lines_view(
                    actions@,
                )[k] == lines_view(prev_actions).push(line@)[k] by {
                    if k < prev_actions.len() {
                        assert(actions@[k] == prev_actions[k]);
                        assert(lines_view(prev_actions)[k] == prev_actions[k]@);
                    } else {
                        assert(actions@[k] == line);
                    }
                }
                assert(lines_view(actions@) =~= lines_view(prev_actions).push(line@));
                assert(lines_view(actions@) == new_target);
            }
            i = i + 1;
        }
        proof {
            assert(txn_lines_v(stv).take(n as int) =~= txn_lines_v(stv));
        }
        let commit_version: u64 = self.read_snapshot.version + 1;
        let commit_path = build_commit_path(self.read_snapshot.table_root.as_str(), commit_version);
        Ok(PreparedCommit { path: commit_path, actions, version: commit_version })
    }

    /// Commits the staged changes: validates and renders them through
    /// `prepare_commit`, then asks the JSON handler exactly once to create
    /// the next version's commit file with `overwrite` false. An existing
    /// file surfaces as a conflict carrying the transaction back; nothing
    /// is written on a validation failure.
    pub fn commit<W: JsonHandler>(self, writer: &mut W) -> (r: DeltaResult<CommitResult>)
        requires
            self.read_snapshot.version < u64::MAX,
            self.commit_info matches Some(ci) ==> ci.wf(),
            forall|i: int|
                0 <= i < self.add_files_metadata@.len() ==> (
                #[trigger] self.add_files_metadata@[i]).wf(),
        ensures
            has_dup_ids(app_ids_of(self.set_transactions@)) ==> (r matches Err(e) && (e matches
                Error::Generic(m) && exists|j: int|
                #[trigger] is_first_dup(app_ids_of(self.set_transactions@), j) && m@ == "app_id "@
                    + app_ids_of(self.set_transactions@)[j] + " already exists in transaction"@)),
            !has_dup_ids(app_ids_of(self.set_transactions@)) && self.commit_info is None ==> (
            r matches Err(e) && e is MissingCommitInfo),
            !has_dup_ids(app_ids_of(self.set_transactions@)) && (self.commit_info matches Some(ci)
                && !commit_info_ok(ci)) ==> (r matches Err(e) && (e is InvalidCommitInfo || e
                is MissingColumn || e is Schema)),
            !has_dup_ids(app_ids_of(self.set_transactions@)) && (self.commit_info matches Some(ci)
                && commit_info_ok(ci)) && !staged_adds_ok(self.add_files_metadata@) ==> (
            r matches Err(e) && e is Schema),
            r matches Ok(CommitResult::Committed(v)) ==> v == self.read_snapshot.version + 1,
            r matches Ok(CommitResult::Conflict(t, v)) ==> v == self.read_snapshot.version + 1
                && t.read_snapshot == self.read_snapshot && t.set_transactions
                == self.set_transactions && t.add_files_metadata == self.add_files_metadata,
    {
        let prepared = match self.prepare_commit() {
            Ok(pc) => pc,
            Err(e) => {
                return Err(e);
            },
        };
        match writer.write_json_file(&prepared.path, &prepared.actions, false) {
            Ok(_) => Ok(CommitResult::Committed(prepared.version)),
            Err(Error::FileAlreadyExists(_)) => Ok(
                CommitResult::Conflict(self, prepared.version),
            ),
            Err(e) => Err(e),
        }
    }
}

/// A validated, fully rendered commit: the path of the next version's
/// commit file and the action lines to write there, in order.
#[derive(Debug)]
pub struct PreparedCommit {
    pub path: String,
    pub actions: Vec<String>,
    pub version: u64,
}

/// Data derived from a transaction that writers need/// Data derived from a transaction that writers need in order to produce
/// table data: the directory to write under, the snapshot schema, and the
/// logical-to-physical transform.
#[derive(Debug)]
pub struct WriteContext {
    pub target_dir: String,
    pub schema: StructType,
    pub logical_to_physical: Expression,
}

impl WriteContext {
    pub fn target_dir(&self) -> (r: &String)
        ensures
            r == &self.target_dir,
    {
        &self.target_dir
    }

    pub fn schema(&self) -> (r: &StructType)
        ensures
            r == &self.schema,
    {
        &self.schema
    }

    pub fn logical_to_physical(&self) -> (r: &Expression)
        ensures
            r == &self.logical_to_physical,
    {
        &self.logical_to_physical
    }
}

impl Transaction {
    /// The write context of this transaction; constant for its lifetime.
    pub fn get_write_context(&self) -> (r: WriteContext)
        ensures
            r.target_dir@ == self.read_snapshot.table_root@,
            r.schema@ == self.read_snapshot.schema@,
            r.logical_to_physical@ == ExpressionV::Struct(
                l2p_exprs(
                    self.read_snapshot.schema@,
                    names_view(self.read_snapshot.partition_columns@),
                ),
            ),
    {
        WriteContext {
            target_dir: self.read_snapshot.table_root.clone(),
            schema: crate::schema::clone_struct_type(&self.read_snapshot.schema),
            logical_to_physical: self.generate_logical_to_physical(),
        }
    }
}

/// The views of a list of names.
pub open spec fn names_view(names: Seq<String>) -> Seq<Seq<char>> {
    names.map(|i: int, s: String| s@)
}

/// Whether a list of names holds the given name.
pub fn contains_name(names: &Vec<String>, name: &str) -> (r: bool)
    ensures
        r == names_view(names@).contains(name@),
{
    let ghost nv = names_view(names@);
    let n = names.len();
    for i in 0..n
        invariant
            n == names@.len(),
            nv == names_view(names@),
            nv.len() == n,
            forall|j: int| 0 <= j < i ==> nv[j] != name@,
    {
        proof {
            assert(nv[i as int] == names@[i as int]@);
        }
        if crate::strings::str_eq(names[i].as_str(), name) {
            proof {
                assert(nv.contains(name@));
            }
            return true;
        }
    }
    proof {
        if nv.contains(name@) {
            let w = choose|w: int| 0 <= w < nv.len() && nv[w] == name@;
            assert(false);
        }
    }
    false
}

/// The pass-through column expressions for the non-partition fields of a
/// schema, in schema order.
pub open spec fn l2p_exprs(fields: Seq<FieldV>, parts: Seq<Seq<char>>) -> Seq<ExpressionV>
    decreases fields.len(),
{
    if fields.len() == 0 {
        Seq::empty()
    } else {
        let rest = l2p_exprs(fields.drop_last(), parts);
        if parts.contains(fields.last().name) {
            rest
        } else {
            rest.push(ExpressionV::Column(fields.last().name))
        }
    }
}

} // verus!
