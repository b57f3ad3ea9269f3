//! The engine capability surface: narrow interfaces an engine implements so
//! the core can ask for I/O without performing any itself, and the modeled
//! shape of engine data batches handed across that boundary.
use vstd::prelude::*;

verus! {

use crate::error::Error;
use crate::scalars::{elems_view, Scalar, ScalarV};

/// One named column of an engine data batch.
#[derive(Debug)]
pub struct EngineColumn {
    pub name: String,
    pub values: Vec<Scalar>,
}

/// A batch of engine data: named columns of equal length.
#[derive(Debug)]
pub struct EngineBatch {
    pub num_rows: usize,
    pub columns: Vec<EngineColumn>,
}

/// The view of a batch: column names with their values.
pub open spec fn batch_view(b: EngineBatch) -> Seq<(Seq<char>, Seq<ScalarV>)> {
    b.columns@.map(|i: int, c: EngineColumn| (c.name@, elems_view(c.values@)))
}

/// The first column with the given name, if any.
pub open spec fn batch_lookup(cols: Seq<(Seq<char>, Seq<ScalarV>)>, name: Seq<char>) -> Option<
    Seq<ScalarV>,
>
    decreases cols.len(),
{
    if cols.len() == 0 {
        None
    } else if cols[0].0 == name {
        Some(cols[0].1)
    } else {
        batch_lookup(cols.drop_first(), name)
    }
}

/// A found column is one of the entries.
pub proof fn lemma_batch_lookup_is_entry(cols: Seq<(Seq<char>, Seq<ScalarV>)>, name: Seq<char>)
    ensures
        batch_lookup(cols, name) matches Some(v) ==> exists|i: int|
            0 <= i < cols.len() && #[trigger] cols[i] == (name, v),
    decreases cols.len(),
{
    if cols.len() > 0 && cols[0].0 != name {
        lemma_batch_lookup_is_entry(cols.drop_first(), name);
        if batch_lookup(cols, name) is Some {
            let v = batch_lookup(cols, name)->0;
            let i = choose|i: int|
                0 <= i < cols.drop_first().len() && #[trigger] cols.drop_first()[i] == (name, v);
            assert(cols[i + 1] == (name, v));
        }
    }
}

/// In a well-formed batch, a found column holds one value per row.
pub proof fn lemma_batch_lookup_len(b: EngineBatch, name: Seq<char>)
    requires
        b.wf(),
    ensures
        batch_lookup(batch_view(b), name) matches Some(v) ==> v.len() == b.num_rows,
{
    lemma_batch_lookup_is_entry(batch_view(b), name);
    if batch_lookup(batch_view(b), name) is Some {
        let v = batch_lookup(batch_view(b), name)->0;
        let i = choose|i: int|
            0 <= i < batch_view(b).len() && #[trigger] batch_view(b)[i] == (name, v);
        assert(batch_view(b)[i] == (b.columns@[i].name@, elems_view(b.columns@[i].values@)));
        crate::scalars::lemma_elems_view(b.columns@[i].values@);
        assert(b.columns@[i].values@.len() == b.num_rows);
    }
}

impl EngineBatch {
    /// Every column holds one value per row.
    pub open spec fn wf(self) -> bool {
        forall|i: int|
            #![trigger self.columns@[i]]
            0 <= i < self.columns@.len() ==> self.columns@[i].values@.len() == self.num_rows
    }

    /// The number of rows.
    pub fn len(&self) -> (r: usize)
        ensures
            r == self.num_rows,
    {
        self.num_rows
    }

    /// The values of the first column with the given name, if any.
    pub fn column(&self, name: &str) -> (r: Option<&Vec<Scalar>>)
        ensures
            match r {
                Some(v) => batch_lookup(batch_view(*self), name@) == Some(elems_view(v@)) && (
                self.wf() ==> v@.len() == self.num_rows),
                None => batch_lookup(batch_view(*self), name@) is None,
            },
    {
        let ghost bv = batch_view(*self);
        let n = self.columns.len();
        proof {
            assert(bv.skip(0) =~= bv);
        }
        for i in 0..n
            invariant
                n == self.columns@.len(),
                bv == batch_view(*self),
                bv.len() == n,
                batch_lookup(bv, name@) == batch_lookup(bv.skip(i as int), name@),
        {
            proof {
                assert(bv.skip(i as int)[0] == bv[i as int]);
                assert(bv[i as int] == (
                    self.columns@[i as int].name@,
                    elems_view(self.columns@[i as int].values@),
                ));
                assert(bv.skip(i as int).drop_first() =~= bv.skip(i + 1));
            }
            if crate::strings::str_eq(self.columns[i].name.as_str(), name) {
                return Some(&self.columns[i].values);
            }
        }
        None
    }
}

/// The JSON side of the engine: writes a sequence of newline-delimited JSON
/// action lines to a file. With `overwrite` false the write must be an
/// atomic create-if-absent that fails with `FileAlreadyExists` when the path
/// already holds a file; this is the sole concurrency control for commits.
pub trait JsonHandler {
    fn write_json_file(&mut self, path: &String, lines: &Vec<String>, overwrite: bool) -> Result<
        (),
        Error,
    >;
}

} // verus!
