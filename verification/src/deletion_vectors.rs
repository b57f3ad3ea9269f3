//! Deletion vectors: the descriptor locating a compressed bitmap of deleted
//! row indexes, conversion of bitmaps to selection vectors, and the
//! selection-vector split used when streaming read results.
use vstd::prelude::*;

verus! {

use crate::error::Error;
use crate::strings::int_chars;

/// The roaring 64-bit bitmap this module reads deleted row indexes from.
#[verifier::external_type_specification]
#[verifier::external_body]
pub struct ExRoaringTreemap(roaring::RoaringTreemap);

/// The set of row indexes a roaring treemap stores.
pub uninterp spec fn treemap_set(t: roaring::RoaringTreemap) -> Set<u64>;

/// Relies on roaring's `RoaringTreemap::contains`: whether the value is in
/// the stored set.
#[verifier::external_body]
pub fn treemap_contains(t: &roaring::RoaringTreemap, v: u64) -> (r: bool)
    ensures
        r == treemap_set(*t).contains(v),
{
    t.contains(v)
}

/// Relies on roaring's `RoaringTreemap::max`: the greatest stored value, or
/// nothing when the set is empty.
#[verifier::external_body]
pub fn treemap_max(t: &roaring::RoaringTreemap) -> (r: Option<u64>)
    ensures
        r matches Some(m) ==> treemap_set(*t).contains(m) && (forall|x: u64|
            treemap_set(*t).contains(x) ==> x <= m),
        r is None ==> forall|x: u64| !treemap_set(*t).contains(x),
{
    t.max()
}

/// Relies on roaring's `RoaringTreemap::iter`: the stored values in
/// ascending order.
#[verifier::external_body]
pub fn treemap_to_vec(t: &roaring::RoaringTreemap) -> (r: Vec<u64>)
    ensures
        forall|i: int, j: int| 0 <= i < j < r@.len() ==> r@[i] < r@[j],
        forall|i: int| 0 <= i < r@.len() ==> treemap_set(*t).contains(#[trigger] r@[i]),
        forall|x: u64| #[trigger] treemap_set(*t).contains(x) ==> r@.contains(x),
{
    t.iter().collect()
}

/// Relies on roaring's `RoaringTreemap::deserialize_from`: parses the
/// portable serialized bitmap format, validating the input.
#[verifier::external_body]
pub fn treemap_deserialize(bytes: &[u8]) -> (r: Result<roaring::RoaringTreemap, Error>)
{
    roaring::RoaringTreemap::deserialize_from(bytes).map_err(
        |e| Error::Generic(format!("invalid deletion vector bitmap: {e}")),
    )
}

/// Relies on roaring's `BitXor`: the symmetric difference of the stored
/// sets.
#[verifier::external_body]
pub fn treemap_xor(a: &roaring::RoaringTreemap, b: &roaring::RoaringTreemap) -> (r:
    roaring::RoaringTreemap)
    ensures
        forall|x: u64| #[trigger] treemap_set(r).contains(x) == (treemap_set(*a).contains(x)
            != treemap_set(*b).contains(x)),
{
    a ^ b
}

/// A descriptor locating the deletion vector of one data file: how it is
/// stored, where, and how many rows it deletes.
#[derive(Debug)]
pub struct DeletionVectorDescriptor {
    /// How the vector is stored: inline, by path, or by identifier.
    pub storage_type: String,
    /// The stored payload or location, depending on the storage type.
    pub path_or_inline_dv: String,
    /// The offset of the vector's data within its file, if stored in one.
    pub offset: Option<i32>,
    /// The size of the stored vector in bytes.
    pub size_in_bytes: i32,
    /// The number of deleted rows the vector records.
    pub cardinality: i64,
}

/// The unique identifier of a descriptor: its storage type and payload,
/// with the offset appended when one is present.
pub open spec fn unique_id_of(
    storage_type: Seq<char>,
    path_or_inline_dv: Seq<char>,
    offset: Option<i32>,
) -> Seq<char> {
    storage_type + path_or_inline_dv + (match offset {
        Some(o) => "@"@ + int_chars(o as int),
        None => Seq::empty(),
    })
}

impl DeletionVectorDescriptor {
    /// The unique identifier of this descriptor.
    pub fn unique_id(&self) -> (r: String)
        ensures
            r@ == unique_id_of(self.storage_type@, self.path_or_inline_dv@, self.offset),
    {
        let mut out = String::new();
        out.append(self.storage_type.as_str());
        out.append(self.path_or_inline_dv.as_str());
        match self.offset {
            Some(o) => {
                out.append("@");
                let os = crate::strings::i64_to_string(o as i64);
                out.append(os.as_str());
            },
            None => {},
        }
        proof {
            assert(out@ =~= unique_id_of(
                self.storage_type@,
                self.path_or_inline_dv@,
                self.offset,
            ));
        }
        out
    }
}

/// Converts a deletion bitmap to a dense selection vector sized to the
/// greatest deleted index plus one: true keeps a row, false drops it.
/// Absence of deletions yields an empty vector.
pub fn deletion_treemap_to_bools(t: &roaring::RoaringTreemap) -> (r: Vec<bool>)
    requires
        forall|x: u64| #[trigger] treemap_set(*t).contains(x) ==> x < usize::MAX as u64,
    ensures
        forall|i: int|
            0 <= i < r@.len() ==> #[trigger] r@[i] == !treemap_set(*t).contains(i as u64),
        r@.len() == 0 ==> forall|x: u64| !treemap_set(*t).contains(x),
        r@.len() > 0 ==> treemap_set(*t).contains((r@.len() - 1) as u64) && (forall|x: u64|
            #[trigger] treemap_set(*t).contains(x) ==> (x as int) < r@.len()),
{
    treemap_to_bools_with(t, false)
}

/// Converts a changed-rows bitmap to a dense selection vector sized to the
/// greatest index plus one: true selects exactly the stored rows.
pub fn changed_treemap_to_bools(t: &roaring::RoaringTreemap) -> (r: Vec<bool>)
    requires
        forall|x: u64| #[trigger] treemap_set(*t).contains(x) ==> x < usize::MAX as u64,
    ensures
        forall|i: int|
            0 <= i < r@.len() ==> #[trigger] r@[i] == treemap_set(*t).contains(i as u64),
        r@.len() == 0 ==> forall|x: u64| !treemap_set(*t).contains(x),
        r@.len() > 0 ==> treemap_set(*t).contains((r@.len() - 1) as u64) && (forall|x: u64|
            #[trigger] treemap_set(*t).contains(x) ==> (x as int) < r@.len()),
{
    treemap_to_bools_with(t, true)
}

/// Converts a bitmap to a dense boolean vector sized to the greatest stored
/// index plus one; `selected` is the value marking stored indexes.
fn treemap_to_bools_with(t: &roaring::RoaringTreemap, selected: bool) -> (r: Vec<bool>)
    requires
        forall|x: u64| #[trigger] treemap_set(*t).contains(x) ==> x < usize::MAX as u64,
    ensures
        forall|i: int|
            0 <= i < r@.len() ==> #[trigger] r@[i] == (treemap_set(*t).contains(i as u64)
                == selected),
        r@.len() == 0 ==> forall|x: u64| !treemap_set(*t).contains(x),
        r@.len() > 0 ==> treemap_set(*t).contains((r@.len() - 1) as u64) && (forall|x: u64|
            #[trigger] treemap_set(*t).contains(x) ==> (x as int) < r@.len()),
{
    match treemap_max(t) {
        None => Vec::new(),
        Some(m) => {
            let len: usize = (m as usize) + 1;
            let mut out: Vec<bool> = Vec::new();
            let mut i: usize = 0;
            while i < len
                invariant
                    len == m + 1,
                    m < usize::MAX as u64,
                    treemap_set(*t).contains(m),
                    forall|x: u64| #[trigger] treemap_set(*t).contains(x) ==> x <= m,
                    i <= len,
                    out@.len() == i,
                    forall|j: int|
                        0 <= j < i ==> #[trigger] out@[j] == (treemap_set(*t).contains(j as u64)
                            == selected),
                decreases len - i,
            {
                out.push(treemap_contains(t, i as u64) == selected);
                i = i + 1;
            }
            out
        },
    }
}

/// A run of one boolean value.
pub open spec fn repeat_bool(p: bool, n: nat) -> Seq<bool> {
    Seq::new(n, |i: int| p)
}

/// The prefix a split hands out: the vector's first `len` values, padded
/// with `pad` when the vector is shorter.
pub open spec fn split_mask(v: Seq<bool>, len: int, pad: bool) -> Seq<bool> {
    if v.len() >= len {
        v.take(len)
    } else {
        v + repeat_bool(pad, (len - v.len()) as nat)
    }
}

/// What a split keeps for later batches: the remainder past `len`, or
/// nothing once the vector is exhausted.
pub open spec fn split_rest(v: Seq<bool>, len: int) -> Seq<bool> {
    if v.len() >= len {
        v.skip(len)
    } else {
        Seq::empty()
    }
}

/// Splits a selection vector for one batch of the given length: the first
/// result covers the batch, padded with `pad` when the vector runs out, and
/// the second carries the remainder. Nothing splits into nothing.
pub fn split_vector(sv: Option<Vec<bool>>, len: usize, extend: Option<bool>) -> (r: (
    Option<Vec<bool>>,
    Option<Vec<bool>>,
))
    requires
        sv is Some ==> extend is Some,
    ensures
        sv is None ==> r.0 is None && r.1 is None,
        sv matches Some(v) ==> (r.0 matches Some(m) && m@ == split_mask(
            v@,
            len as int,
            extend->0,
        )) && (r.1 matches Some(rest) && rest@ == split_rest(v@, len as int)),
{
    match sv {
        None => (None, None),
        Some(mut v) => {
            let pad = match extend {
                Some(p) => p,
                None => false,
            };
            if v.len() >= len {
                let mut rest: Vec<bool> = Vec::new();
                let total = v.len();
                let mut i: usize = len;
                while i < total
                    invariant
                        len <= i <= total,
                        total == v@.len(),
                        rest@ =~= v@.subrange(len as int, i as int),
                    decreases total - i,
                {
                    rest.push(v[i]);
                    proof {
                        assert(v@.subrange(len as int, i + 1) =~= v@.subrange(
                            len as int,
                            i as int,
                        ).push(v@[i as int]));
                    }
                    i = i + 1;
                }
                let ghost before = v@;
                v.truncate(len);
                proof {
                    assert(v@ =~= before.take(len as int));
                }
                (Some(v), Some(rest))
            } else {
                let ghost orig = v@;
                let target = len;
                while v.len() < target
                    invariant
                        orig.len() <= v@.len() <= target,
                        v@ =~= orig + repeat_bool(pad, (v@.len() - orig.len()) as nat),
                    decreases target - v@.len(),
                {
                    v.push(pad);
                    proof {
                        assert(v@ =~= orig + repeat_bool(pad, (v@.len() - orig.len()) as nat));
                    }
                }
                (Some(v), Some(Vec::new()))
            }
        },
    }
}

/// The prefixes successive splits hand out for a run of batch lengths.
pub open spec fn split_masks(v: Seq<bool>, lens: Seq<int>, pad: bool) -> Seq<Seq<bool>>
    decreases lens.len(),
{
    if lens.len() == 0 {
        Seq::empty()
    } else {
        seq![split_mask(v, lens[0], pad)] + split_masks(
            split_rest(v, lens[0]),
            lens.drop_first(),
            pad,
        )
    }
}

/// The concatenation of a sequence of sequences.
pub open spec fn concat_all(seqs: Seq<Seq<bool>>) -> Seq<bool>
    decreases seqs.len(),
{
    if seqs.len() == 0 {
        Seq::empty()
    } else {
        seqs[0] + concat_all(seqs.drop_first())
    }
}

/// The sum of a sequence of lengths.
pub open spec fn sum_of(lens: Seq<int>) -> int
    decreases lens.len(),
{
    if lens.len() == 0 {
        0
    } else {
        lens[0] + sum_of(lens.drop_first())
    }
}

/// Split conservation: over one file, concatenating all the prefixes that
/// successive splits hand out reproduces the resolved selection vector,
/// padded with the file's padding value to the total length read.
pub proof fn lemma_split_conservation(v: Seq<bool>, lens: Seq<int>, pad: bool)
    requires
        forall|i: int| 0 <= i < lens.len() ==> #[trigger] lens[i] >= 0,
    ensures
        concat_all(split_masks(v, lens, pad)) == split_mask(v, sum_of(lens), pad),
    decreases lens.len(),
{
    if lens.len() == 0 {
        assert(split_mask(v, 0, pad) =~= Seq::<bool>::empty());
        assert(concat_all(split_masks(v, lens, pad)) =~= Seq::<bool>::empty());
    } else {
        let len0 = lens[0];
        let rest = split_rest(v, len0);
        lemma_split_conservation(rest, lens.drop_first(), pad);
        let ms = split_masks(v, lens, pad);
        assert(ms == seq![split_mask(v, len0, pad)] + split_masks(
            rest,
            lens.drop_first(),
            pad,
        ));
        assert(ms[0] == split_mask(v, len0, pad));
        assert(ms.drop_first() =~= split_masks(rest, lens.drop_first(), pad));
        assert(concat_all(ms) == ms[0] + concat_all(ms.drop_first()));
        let total = sum_of(lens);
        let tail_sum = sum_of(lens.drop_first());
        assert(forall|i: int|
            0 <= i < lens.drop_first().len() ==> #[trigger] lens.drop_first()[i] >= 0);
        lemma_sum_nonneg(lens.drop_first());
        assert(split_mask(v, len0, pad) + split_mask(rest, tail_sum, pad) =~= split_mask(
            v,
            total,
            pad,
        ));
    }
}

/// A sum of nonnegative lengths is nonnegative.
pub proof fn lemma_sum_nonneg(lens: Seq<int>)
    requires
        forall|i: int| 0 <= i < lens.len() ==> #[trigger] lens[i] >= 0,
    ensures
        sum_of(lens) >= 0,
    decreases lens.len(),
{
    if lens.len() > 0 {
        assert(forall|i: int|
            0 <= i < lens.drop_first().len() ==> #[trigger] lens.drop_first()[i] >= 0);
        lemma_sum_nonneg(lens.drop_first());
    }
}


/// Relies on roaring's `RoaringTreemap::new`: a bitmap storing nothing.
#[verifier::external_body]
pub fn treemap_empty() -> (r: roaring::RoaringTreemap)
    ensures
        forall|x: u64| !treemap_set(r).contains(x),
{
    roaring::RoaringTreemap::new()
}

/// Two successive splits amount to one split of the summed length.
pub proof fn lemma_split_step(v: Seq<bool>, c: int, l: int, pad: bool)
    requires
        c >= 0,
        l >= 0,
    ensures
        split_mask(v, c, pad) + split_mask(split_rest(v, c), l, pad) == split_mask(
            v,
            c + l,
            pad,
        ),
        split_rest(split_rest(v, c), l) == split_rest(v, c + l),
{
    assert(split_mask(v, c, pad) + split_mask(split_rest(v, c), l, pad) =~= split_mask(
        v,
        c + l,
        pad,
    ));
    assert(split_rest(split_rest(v, c), l) =~= split_rest(v, c + l));
}


} // verus!
