//! Typed literal values: scalars of every column type, with construction
//! validators, typed nullability, ordering and checked arithmetic.
use vstd::prelude::*;

verus! {

use crate::error::{DeltaResult, Error};
use crate::schema::{
    clone_data_type,
    clone_fields,
    fields_view,
    lemma_fields_view,
    ArrayType,
    DataType,
    DataTypeV,
    DecimalType,
    FieldV,
    MapType,
    PrimitiveType,
    StructField,
    StructType,
};
use crate::strings::{num_digits, pow10, lemma_num_digits_le};

/// A decimal value: its unscaled 128-bit integer and its type.
#[derive(Debug, Clone, Copy, PartialEq, Eq, Structural)]
pub struct DecimalData {
    pub bits: i128,
    pub ty: DecimalType,
}

/// An array value: its type and its elements.
#[derive(Debug)]
pub struct ArrayData {
    pub tpe: ArrayType,
    pub elements: Vec<Scalar>,
}

/// A map value: its type and its key-value pairs.
#[derive(Debug)]
pub struct MapData {
    pub data_type: MapType,
    pub pairs: Vec<(Scalar, Scalar)>,
}

/// A struct value: its fields and one value per field.
#[derive(Debug)]
pub struct StructData {
    pub fields: Vec<StructField>,
    pub values: Vec<Scalar>,
}

/// A single value, which can be null. Floating-point columns are carried in
/// the type system but have no scalar value here.
#[derive(Debug)]
pub enum Scalar {
    /// 32-bit integer.
    Integer(i32),
    /// 64-bit integer.
    Long(i64),
    /// 16-bit integer.
    Short(i16),
    /// 8-bit integer.
    Byte(i8),
    /// UTF-8 encoded string.
    String(String),
    /// True or false value.
    Boolean(bool),
    /// Microsecond precision timestamp, adjusted to UTC.
    Timestamp(i64),
    /// Microsecond precision timestamp, with no timezone.
    TimestampNtz(i64),
    /// Days since the UNIX epoch 1970-01-01.
    Date(i32),
    /// Binary data.
    Binary(Vec<u8>),
    /// Decimal value with a given precision and scale.
    Decimal(DecimalData),
    /// Null value with a given data type.
    Null(DataType),
    /// Struct value.
    Struct(StructData),
    /// Array value.
    Array(ArrayData),
    /// Map value.
    Mapping(MapData),
}

/// The mathematical value of a scalar.
pub enum ScalarV {
    Integer(i32),
    Long(i64),
    Short(i16),
    Byte(i8),
    String(Seq<char>),
    Boolean(bool),
    Timestamp(i64),
    TimestampNtz(i64),
    Date(i32),
    Binary(Seq<u8>),
    Decimal(i128, DecimalType),
    Null(DataTypeV),
    /// Field schemas and one value per field.
    Struct(Seq<FieldV>, Seq<ScalarV>),
    /// Element type, whether elements may be null, and the elements.
    Array(DataTypeV, bool, Seq<ScalarV>),
    /// Key type, value type, whether values may be null, and the pairs.
    Mapping(DataTypeV, DataTypeV, bool, Seq<(ScalarV, ScalarV)>),
}

/// The view of a scalar.
pub open spec fn sc_view(s: Scalar) -> ScalarV
    decreases s,
{
    match s {
        Scalar::Integer(x) => ScalarV::Integer(x),
        Scalar::Long(x) => ScalarV::Long(x),
        Scalar::Short(x) => ScalarV::Short(x),
        Scalar::Byte(x) => ScalarV::Byte(x),
        Scalar::String(x) => ScalarV::String(x@),
        Scalar::Boolean(x) => ScalarV::Boolean(x),
        Scalar::Timestamp(x) => ScalarV::Timestamp(x),
        Scalar::TimestampNtz(x) => ScalarV::TimestampNtz(x),
        Scalar::Date(x) => ScalarV::Date(x),
        Scalar::Binary(x) => ScalarV::Binary(x@),
        Scalar::Decimal(d) => ScalarV::Decimal(d.bits, d.ty),
        Scalar::Null(dt) => ScalarV::Null(dt@),
        Scalar::Struct(sd) => ScalarV::Struct(fields_view(sd.fields@), elems_view(sd.values@)),
        Scalar::Array(ad) => ScalarV::Array(
            ad.tpe.element_type@,
            ad.tpe.contains_null,
            elems_view(ad.elements@),
        ),
        Scalar::Mapping(md) => ScalarV::Mapping(
            md.data_type.key_type@,
            md.data_type.value_type@,
            md.data_type.value_contains_null,
            pairs_view(md.pairs@),
        ),
    }
}

/// The views of a sequence of scalars, in order.
pub open spec fn elems_view(elems: Seq<Scalar>) -> Seq<ScalarV>
    decreases elems,
{
    if elems.len() == 0 {
        Seq::empty()
    } else {
        elems_view(elems.drop_last()).push(sc_view(elems.last()))
    }
}

/// The views of a sequence of scalar pairs, in order.
pub open spec fn pairs_view(pairs: Seq<(Scalar, Scalar)>) -> Seq<(ScalarV, ScalarV)>
    decreases pairs,
{
    if pairs.len() == 0 {
        Seq::empty()
    } else {
        pairs_view(pairs.drop_last()).push(
            (sc_view(pairs.last().0), sc_view(pairs.last().1)),
        )
    }
}

/// `elems_view` maps the sequence pointwise.
pub proof fn lemma_elems_view(elems: Seq<Scalar>)
    ensures
        elems_view(elems).len() == elems.len(),
        forall|i: int|
            #![trigger elems_view(elems)[i]]
            #![trigger elems[i]]
            0 <= i < elems.len() ==> elems_view(elems)[i] == sc_view(elems[i]),
    decreases elems.len(),
{
    if elems.len() > 0 {
        lemma_elems_view(elems.drop_last());
        assert forall|i: int| 0 <= i < elems.len() implies elems_view(elems)[i] == sc_view(
            elems[i],
        ) by {
            if i < elems.len() - 1 {
                assert(elems.drop_last()[i] == elems[i]);
            } else {
                assert(elems[i] == elems.last());
            }
        }
    }
}

/// `pairs_view` maps the sequence pointwise.
pub proof fn lemma_pairs_view(pairs: Seq<(Scalar, Scalar)>)
    ensures
        pairs_view(pairs).len() == pairs.len(),
        forall|i: int|
            #![trigger pairs_view(pairs)[i]]
            #![trigger pairs[i]]
            0 <= i < pairs.len() ==> pairs_view(pairs)[i] == (
                sc_view(pairs[i].0),
                sc_view(pairs[i].1),
            ),
    decreases pairs.len(),
{
    if pairs.len() > 0 {
        lemma_pairs_view(pairs.drop_last());
        assert forall|i: int| 0 <= i < pairs.len() implies pairs_view(pairs)[i] == (
            sc_view(pairs[i].0),
            sc_view(pairs[i].1),
        ) by {
            if i < pairs.len() - 1 {
                assert(pairs.drop_last()[i] == pairs[i]);
            } else {
                assert(pairs[i] == pairs.last());
            }
        }
    }
}

impl View for Scalar {
    type V = ScalarV;

    open spec fn view(&self) -> ScalarV {
        sc_view(*self)
    }
}

impl View for ArrayData {
    type V = ScalarV;

    open spec fn view(&self) -> ScalarV {
        ScalarV::Array(self.tpe.element_type@, self.tpe.contains_null, elems_view(self.elements@))
    }
}

impl View for MapData {
    type V = ScalarV;

    open spec fn view(&self) -> ScalarV {
        ScalarV::Mapping(
            self.data_type.key_type@,
            self.data_type.value_type@,
            self.data_type.value_contains_null,
            pairs_view(self.pairs@),
        )
    }
}

impl View for StructData {
    type V = ScalarV;

    open spec fn view(&self) -> ScalarV {
        ScalarV::Struct(fields_view(self.fields@), elems_view(self.values@))
    }
}

/// The data type of a scalar value.
pub open spec fn type_of(v: ScalarV) -> DataTypeV {
    match v {
        ScalarV::Integer(_) => DataTypeV::Primitive(PrimitiveType::Integer),
        ScalarV::Long(_) => DataTypeV::Primitive(PrimitiveType::Long),
        ScalarV::Short(_) => DataTypeV::Primitive(PrimitiveType::Short),
        ScalarV::Byte(_) => DataTypeV::Primitive(PrimitiveType::Byte),
        ScalarV::String(_) => DataTypeV::Primitive(PrimitiveType::String),
        ScalarV::Boolean(_) => DataTypeV::Primitive(PrimitiveType::Boolean),
        ScalarV::Timestamp(_) => DataTypeV::Primitive(PrimitiveType::Timestamp),
        ScalarV::TimestampNtz(_) => DataTypeV::Primitive(PrimitiveType::TimestampNtz),
        ScalarV::Date(_) => DataTypeV::Primitive(PrimitiveType::Date),
        ScalarV::Binary(_) => DataTypeV::Primitive(PrimitiveType::Binary),
        ScalarV::Decimal(_, ty) => DataTypeV::Primitive(PrimitiveType::Decimal(ty)),
        ScalarV::Null(dt) => dt,
        ScalarV::Struct(fields, _) => DataTypeV::Struct(fields),
        ScalarV::Array(et, cn, _) => DataTypeV::Array(Box::new(et), cn),
        ScalarV::Mapping(kt, vt, vcn, _) => DataTypeV::Mapping(Box::new(kt), Box::new(vt), vcn),
    }
}

/// The decimal precision of an integer: the count of base-10 digits of its
/// magnitude, with zero having precision zero.
pub open spec fn dec_precision(v: int) -> nat {
    if v == 0 {
        0
    } else if v < 0 {
        num_digits((-v) as nat)
    } else {
        num_digits(v as nat)
    }
}

/// Whether every element is admissible for an array of the given element
/// type and nullability.
pub open spec fn array_elems_ok(et: DataTypeV, cn: bool, elems: Seq<ScalarV>) -> bool {
    forall|i: int|
        #![trigger elems[i]]
        0 <= i < elems.len() ==> type_of(elems[i]) == et && (!cn ==> !(elems[i] is Null))
}

/// Whether every pair is admissible for a map of the given key and value
/// types and value nullability.
pub open spec fn map_pairs_ok(
    kt: DataTypeV,
    vt: DataTypeV,
    vcn: bool,
    pairs: Seq<(ScalarV, ScalarV)>,
) -> bool {
    forall|i: int|
        #![trigger pairs[i]]
        0 <= i < pairs.len() ==> type_of(pairs[i].0) == kt && !(pairs[i].0 is Null) && type_of(
            pairs[i].1,
        ) == vt && (pairs[i].1 is Null ==> vcn)
}

/// Whether the values match the fields of a struct value: equal counts,
/// matching types, and nulls only in nullable fields.
pub open spec fn struct_values_ok(fields: Seq<FieldV>, vals: Seq<ScalarV>) -> bool {
    &&& fields.len() == vals.len()
    &&& forall|i: int|
        #![trigger vals[i]]
        0 <= i < vals.len() ==> type_of(vals[i]) == fields[i].data_type && (vals[i] is Null
            ==> fields[i].nullable)
}

/// Computes the decimal precision of a 128-bit number: its count of base-10
/// digits, with zero having precision zero.
pub fn get_decimal_precision(value: i128) -> (r: u8)
    ensures
        r as nat == dec_precision(value as int),
        r <= 39,
{
    if value == 0 {
        return 0;
    }
    let mag: u128 = if value < 0 {
        if value == i128::MIN {
            170141183460469231731687303715884105728u128
        } else {
            (-value) as u128
        }
    } else {
        value as u128
    };
    proof {
        assert(dec_precision(value as int) == num_digits(mag as nat));
        lemma_pow10_39();
        lemma_num_digits_le(mag as nat, 39);
    }
    let mut m: u128 = mag;
    let mut count: usize = 1;
    while m >= 10
        invariant
            m >= 1,
            count >= 1,
            num_digits(mag as nat) <= 39,
            num_digits(mag as nat) == num_digits(m as nat) + count - 1,
            count <= num_digits(mag as nat),
        decreases m,
    {
        proof {
            assert(num_digits(m as nat) == 1 + num_digits((m as nat) / 10));
            assert((m as nat) / 10 == ((m / 10) as nat));
        }
        m = m / 10;
        count = count + 1;
    }
    proof {
        assert(num_digits(m as nat) == 1);
        assert(count == num_digits(mag as nat));
    }
    count as u8
}

/// `pow10(39)` written out, and it exceeds the largest 128-bit magnitude.
pub proof fn lemma_pow10_39()
    ensures
        pow10(39) == 1000000000000000000000000000000000000000,
{
    reveal_with_fuel(crate::strings::pow10, 40);
}

impl DecimalData {
    /// Builds a decimal value, rejecting an unscaled integer whose digit
    /// count exceeds the declared precision.
    pub fn try_new(bits: i128, ty: DecimalType) -> (r: DeltaResult<Self>)
        ensures
            r is Ok <==> dec_precision(bits as int) <= ty.precision,
            r matches Ok(d) ==> d == (DecimalData { bits, ty }),
            r matches Err(e) ==> e is InvalidDecimal,
    {
        if ty.precision() >= get_decimal_precision(bits) {
            Ok(DecimalData { bits, ty })
        } else {
            Err(Error::invalid_decimal("decimal value exceeds declared precision"))
        }
    }

    pub fn bits(&self) -> (r: i128)
        ensures
            r == self.bits,
    {
        self.bits
    }

    pub fn ty(&self) -> (r: &DecimalType)
        ensures
            r == &self.ty,
    {
        &self.ty
    }

    pub fn precision(&self) -> (r: u8)
        ensures
            r == self.ty.precision,
    {
        self.ty.precision()
    }

    pub fn scale(&self) -> (r: u8)
        ensures
            r == self.ty.scale,
    {
        self.ty.scale()
    }
}

impl Scalar {
    /// Whether this scalar is null.
    pub fn is_null(&self) -> (r: bool)
        ensures
            r == (self@ is Null),
    {
        matches!(self, Scalar::Null(_))
    }

    /// The data type of this scalar.
    pub fn data_type(&self) -> (r: DataType)
        ensures
            r@ == type_of(self@),
        decreases self,
    {
        match self {
            Scalar::Integer(_) => DataType::integer(),
            Scalar::Long(_) => DataType::long(),
            Scalar::Short(_) => DataType::short(),
            Scalar::Byte(_) => DataType::byte(),
            Scalar::String(_) => DataType::string(),
            Scalar::Boolean(_) => DataType::boolean(),
            Scalar::Timestamp(_) => DataType::timestamp(),
            Scalar::TimestampNtz(_) => DataType::timestamp_ntz(),
            Scalar::Date(_) => DataType::date(),
            Scalar::Binary(_) => DataType::binary(),
            Scalar::Decimal(d) => DataType::decimal(d.ty),
            Scalar::Null(dt) => clone_data_type(dt),
            Scalar::Struct(sd) => DataType::struct_type(clone_fields(&sd.fields)),
            Scalar::Array(ad) => DataType::Array(Box::new(ad.tpe.clone())),
            Scalar::Mapping(md) => DataType::Mapping(Box::new(md.data_type.clone())),
        }
    }

    /// Builds a decimal scalar from raw parts.
    pub fn decimal(bits: i128, precision: u8, scale: u8) -> (r: DeltaResult<Scalar>)
        ensures
            r is Ok <==> scale <= precision <= 38 && dec_precision(bits as int) <= precision,
            r matches Ok(s) ==> s@ == ScalarV::Decimal(
                bits,
                DecimalType { precision, scale },
            ),
    {
        let dtype = DecimalType::try_new(precision, scale)?;
        let dval = DecimalData::try_new(bits, dtype)?;
        Ok(Scalar::Decimal(dval))
    }
}

impl ArrayData {
    /// Builds an array value: every element must have the array's element
    /// type, and nulls are admitted only if the type allows them.
    pub fn try_new(tpe: ArrayType, elements: Vec<Scalar>) -> (r: DeltaResult<Self>)
        ensures
            r is Ok <==> array_elems_ok(
                tpe.element_type@,
                tpe.contains_null,
                elems_view(elements@),
            ),
            r matches Ok(a) ==> a == (ArrayData { tpe, elements }),
            r matches Err(e) ==> e is Schema,
    {
        proof {
            lemma_elems_view(elements@);
        }
        let n = elements.len();
        for i in 0..n
            invariant
                n == elements@.len(),
                elems_view(elements@).len() == n,
                forall|j: int|
                    #![trigger elements@[j]]
                    0 <= j < n ==> elems_view(elements@)[j] == sc_view(elements@[j]),
                forall|j: int|
                    #![trigger elems_view(elements@)[j]]
                    0 <= j < i ==> type_of(elems_view(elements@)[j]) == tpe.element_type@ && (
                    !tpe.contains_null ==> !(elems_view(elements@)[j] is Null)),
        {
            let v = &elements[i];
            if !tpe.contains_null() && v.is_null() {
                return Err(Error::schema("Array element cannot be null for non-nullable array"));
            }
            let vt = v.data_type();
            if !crate::schema::data_type_eq(&vt, tpe.element_type()) {
                return Err(Error::schema("Array scalar type mismatch"));
            }
        }
        Ok(ArrayData { tpe, elements })
    }

    pub fn array_type(&self) -> (r: &ArrayType)
        ensures
            r == &self.tpe,
    {
        &self.tpe
    }

    /// The elements of this array value.
    pub fn array_elements(&self) -> (r: &Vec<Scalar>)
        ensures
            r == &self.elements,
    {
        &self.elements
    }
}

impl MapData {
    /// Builds a map value: keys must be non-null values of the key type,
    /// values must have the value type, and null values are admitted only if
    /// the type allows them.
    pub fn try_new(data_type: MapType, pairs: Vec<(Scalar, Scalar)>) -> (r: DeltaResult<Self>)
        ensures
            r is Ok <==> map_pairs_ok(
                data_type.key_type@,
                data_type.value_type@,
                data_type.value_contains_null,
                pairs_view(pairs@),
            ),
            r matches Ok(m) ==> m == (MapData { data_type, pairs }),
            r matches Err(e) ==> e is Schema,
    {
        proof {
            lemma_pairs_view(pairs@);
        }
        let n = pairs.len();
        for i in 0..n
            invariant
                n == pairs@.len(),
                pairs_view(pairs@).len() == n,
                forall|j: int|
                    #![trigger pairs@[j]]
                    0 <= j < n ==> pairs_view(pairs@)[j] == (
                        sc_view(pairs@[j].0),
                        sc_view(pairs@[j].1),
                    ),
                forall|j: int|
                    #![trigger pairs_view(pairs@)[j]]
                    0 <= j < i ==> {
                        &&& type_of(pairs_view(pairs@)[j].0) == data_type.key_type@
                        &&& !(pairs_view(pairs@)[j].0 is Null)
                        &&& type_of(pairs_view(pairs@)[j].1) == data_type.value_type@
                        &&& (pairs_view(pairs@)[j].1 is Null ==> data_type.value_contains_null)
                    },
        {
            let k = &pairs[i].0;
            let v = &pairs[i].1;
            let kt = k.data_type();
            if !crate::schema::data_type_eq(&kt, data_type.key_type()) {
                return Err(Error::schema("Map scalar type mismatch on key"));
            }
            if k.is_null() {
                return Err(Error::schema("Map key cannot be null"));
            }
            let vt = v.data_type();
            if !crate::schema::data_type_eq(&vt, data_type.value_type()) {
                return Err(Error::schema("Map scalar type mismatch on value"));
            }
            if v.is_null() && !data_type.value_contains_null {
                return Err(
                    Error::schema("Null map value disallowed if map value_contains_null is false"),
                );
            }
        }
        Ok(MapData { data_type, pairs })
    }

    /// The key-value pairs of this map value.
    pub fn pairs(&self) -> (r: &Vec<(Scalar, Scalar)>)
        ensures
            r == &self.pairs,
    {
        &self.pairs
    }

    pub fn map_type(&self) -> (r: &MapType)
        ensures
            r == &self.data_type,
    {
        &self.data_type
    }
}

impl StructData {
    /// Builds a struct value: one value per field, each of the field's type,
    /// with nulls only in nullable fields.
    pub fn try_new(fields: Vec<StructField>, values: Vec<Scalar>) -> (r: DeltaResult<Self>)
        ensures
            r is Ok <==> struct_values_ok(fields_view(fields@), elems_view(values@)),
            r matches Ok(s) ==> s == (StructData { fields, values }),
            r matches Err(e) ==> e is InvalidStructData,
    {
        proof {
            lemma_fields_view(fields@);
            lemma_elems_view(values@);
        }
        if fields.len() != values.len() {
            return Err(
                Error::invalid_struct_data("Incorrect number of values for Struct fields"),
            );
        }
        let n = fields.len();
        for i in 0..n
            invariant
                n == fields@.len() == values@.len(),
                fields_view(fields@).len() == n,
                elems_view(values@).len() == n,
                forall|j: int|
                    #![trigger fields@[j]]
                    0 <= j < n ==> fields_view(fields@)[j] == crate::schema::sf_view(fields@[j]),
                forall|j: int|
                    #![trigger values@[j]]
                    0 <= j < n ==> elems_view(values@)[j] == sc_view(values@[j]),
                forall|j: int|
                    #![trigger elems_view(values@)[j]]
                    0 <= j < i ==> type_of(elems_view(values@)[j]) == fields_view(
                        fields@,
                    )[j].data_type && (elems_view(values@)[j] is Null ==> fields_view(
                        fields@,
                    )[j].nullable),
        {
            let f = &fields[i];
            let a = &values[i];
            let at = a.data_type();
            if !crate::schema::data_type_eq(f.data_type(), &at) {
                return Err(Error::invalid_struct_data("Incorrect datatype for Struct field"));
            }
            if !(f.is_nullable() || !a.is_null()) {
                return Err(
                    Error::invalid_struct_data("Value for non-nullable field cannot be null"),
                );
            }
        }
        Ok(StructData { fields, values })
    }

    pub fn fields(&self) -> (r: &Vec<StructField>)
        ensures
            r == &self.fields,
    {
        &self.fields
    }

    pub fn values(&self) -> (r: &Vec<Scalar>)
        ensures
            r == &self.values,
    {
        &self.values
    }
}


/// Truncating integer division, as machine division behaves.
pub open spec fn tdiv(x: int, d: int) -> int {
    if x == 0 {
        0
    } else if x > 0 && d > 0 {
        x / d
    } else if x < 0 && d < 0 {
        (x * -1) / (d * -1)
    } else if x < 0 {
        ((x * -1) / d) * -1
    } else {
        (x / (d * -1)) * -1
    }
}

/// The remainder matching truncating division.
pub open spec fn tmod(x: int, d: int) -> int {
    x - d * tdiv(x, d)
}

/// The ordering of two integers.
pub open spec fn cmp_int(x: int, y: int) -> core::cmp::Ordering {
    if x < y {
        core::cmp::Ordering::Less
    } else if x > y {
        core::cmp::Ordering::Greater
    } else {
        core::cmp::Ordering::Equal
    }
}

/// The partial order on scalar values: total within one comparable primitive
/// type, and undefined across types, on nulls, and on nested values.
/// Strings and binary compare by the lexicographic order of their bytes;
/// decimals compare only when precision and scale match exactly.
pub open spec fn sc_cmp(a: ScalarV, b: ScalarV) -> Option<core::cmp::Ordering> {
    match (a, b) {
        (ScalarV::Integer(x), ScalarV::Integer(y)) => Some(cmp_int(x as int, y as int)),
        (ScalarV::Long(x), ScalarV::Long(y)) => Some(cmp_int(x as int, y as int)),
        (ScalarV::Short(x), ScalarV::Short(y)) => Some(cmp_int(x as int, y as int)),
        (ScalarV::Byte(x), ScalarV::Byte(y)) => Some(cmp_int(x as int, y as int)),
        (ScalarV::String(x), ScalarV::String(y)) => Some(
            crate::strings::lex_cmp_bytes(
                vstd::utf8::encode_utf8(x),
                vstd::utf8::encode_utf8(y),
            ),
        ),
        (ScalarV::Boolean(x), ScalarV::Boolean(y)) => Some(
            cmp_int(if x { 1int } else { 0int }, if y { 1int } else { 0int }),
        ),
        (ScalarV::Timestamp(x), ScalarV::Timestamp(y)) => Some(cmp_int(x as int, y as int)),
        (ScalarV::TimestampNtz(x), ScalarV::TimestampNtz(y)) => Some(cmp_int(x as int, y as int)),
        (ScalarV::Date(x), ScalarV::Date(y)) => Some(cmp_int(x as int, y as int)),
        (ScalarV::Binary(x), ScalarV::Binary(y)) => Some(crate::strings::lex_cmp_bytes(x, y)),
        (ScalarV::Decimal(b1, t1), ScalarV::Decimal(b2, t2)) => if t1 == t2 {
            Some(cmp_int(b1 as int, b2 as int))
        } else {
            None
        },
        _ => None,
    }
}

/// Two scalars compare `Equal` exactly when their views are equal, for the
/// comparable variants; a scalar never compares `Equal` to one of another
/// variant, and nulls compare to nothing.
pub proof fn lemma_sc_cmp_equal(a: ScalarV, b: ScalarV)
    ensures
        sc_cmp(a, b) == Some(core::cmp::Ordering::Equal) ==> a == b,
{
    if sc_cmp(a, b) == Some(core::cmp::Ordering::Equal) {
        match (a, b) {
            (ScalarV::String(x), ScalarV::String(y)) => {
                crate::strings::lemma_lex_cmp_bytes_eq(
                    vstd::utf8::encode_utf8(x),
                    vstd::utf8::encode_utf8(y),
                );
                vstd::utf8::encode_utf8_decode_utf8(x);
                vstd::utf8::encode_utf8_decode_utf8(y);
            },
            (ScalarV::Binary(x), ScalarV::Binary(y)) => {
                crate::strings::lemma_lex_cmp_bytes_eq(x, y);
            },
            _ => {},
        }
    }
}

/// Compares two scalars, following `sc_cmp`.
pub fn scalar_partial_cmp(a: &Scalar, b: &Scalar) -> (r: Option<core::cmp::Ordering>)
    ensures
        r == sc_cmp(a@, b@),
{
    match (a, b) {
        (Scalar::Integer(x), Scalar::Integer(y)) => Some(cmp_i128(*x as i128, *y as i128)),
        (Scalar::Long(x), Scalar::Long(y)) => Some(cmp_i128(*x as i128, *y as i128)),
        (Scalar::Short(x), Scalar::Short(y)) => Some(cmp_i128(*x as i128, *y as i128)),
        (Scalar::Byte(x), Scalar::Byte(y)) => Some(cmp_i128(*x as i128, *y as i128)),
        (Scalar::String(x), Scalar::String(y)) => Some(
            crate::strings::cmp_str(x.as_str(), y.as_str()),
        ),
        (Scalar::Boolean(x), Scalar::Boolean(y)) => {
            let xv: i128 = if *x { 1 } else { 0 };
            let yv: i128 = if *y { 1 } else { 0 };
            Some(cmp_i128(xv, yv))
        },
        (Scalar::Timestamp(x), Scalar::Timestamp(y)) => Some(cmp_i128(*x as i128, *y as i128)),
        (Scalar::TimestampNtz(x), Scalar::TimestampNtz(y)) => Some(
            cmp_i128(*x as i128, *y as i128),
        ),
        (Scalar::Date(x), Scalar::Date(y)) => Some(cmp_i128(*x as i128, *y as i128)),
        (Scalar::Binary(x), Scalar::Binary(y)) => Some(
            crate::strings::cmp_bytes(x.as_slice(), y.as_slice()),
        ),
        (Scalar::Decimal(d1), Scalar::Decimal(d2)) => {
            if d1.ty == d2.ty {
                Some(cmp_i128(d1.bits, d2.bits))
            } else {
                None
            }
        },
        _ => None,
    }
}

/// Compares two 128-bit integers.
pub fn cmp_i128(x: i128, y: i128) -> (r: core::cmp::Ordering)
    ensures
        r == cmp_int(x as int, y as int),
{
    if x < y {
        core::cmp::Ordering::Less
    } else if x > y {
        core::cmp::Ordering::Greater
    } else {
        core::cmp::Ordering::Equal
    }
}

impl vstd::std_specs::cmp::PartialEqSpecImpl for Scalar {
    open spec fn obeys_eq_spec() -> bool {
        true
    }

    open spec fn eq_spec(&self, other: &Scalar) -> bool {
        sc_cmp(self@, other@) == Some(core::cmp::Ordering::Equal)
    }
}

impl PartialEq for Scalar {
    /// Scalar equality goes through the partial order, so a null never
    /// equals anything, itself included.
    fn eq(&self, other: &Scalar) -> (r: bool) {
        matches!(scalar_partial_cmp(self, other), Some(core::cmp::Ordering::Equal))
    }
}

impl vstd::std_specs::cmp::PartialOrdSpecImpl for Scalar {
    open spec fn obeys_partial_cmp_spec() -> bool {
        true
    }

    open spec fn partial_cmp_spec(&self, other: &Scalar) -> Option<core::cmp::Ordering> {
        sc_cmp(self@, other@)
    }
}

impl PartialOrd for Scalar {
    fn partial_cmp(&self, other: &Scalar) -> (r: Option<core::cmp::Ordering>) {
        scalar_partial_cmp(self, other)
    }
}

/// The view of an optional scalar.
pub open spec fn opt_sc_view(o: Option<Scalar>) -> Option<ScalarV> {
    match o {
        Some(s) => Some(sc_view(s)),
        None => None,
    }
}

/// Addition of two scalars: defined only for equal integral variants, and
/// only when the sum stays in range.
pub open spec fn spec_try_add(a: ScalarV, b: ScalarV) -> Option<ScalarV> {
    match (a, b) {
        (ScalarV::Integer(x), ScalarV::Integer(y)) => if i32::MIN <= x + y <= i32::MAX {
            Some(ScalarV::Integer((x + y) as i32))
        } else {
            None
        },
        (ScalarV::Long(x), ScalarV::Long(y)) => if i64::MIN <= x + y <= i64::MAX {
            Some(ScalarV::Long((x + y) as i64))
        } else {
            None
        },
        (ScalarV::Short(x), ScalarV::Short(y)) => if i16::MIN <= x + y <= i16::MAX {
            Some(ScalarV::Short((x + y) as i16))
        } else {
            None
        },
        (ScalarV::Byte(x), ScalarV::Byte(y)) => if i8::MIN <= x + y <= i8::MAX {
            Some(ScalarV::Byte((x + y) as i8))
        } else {
            None
        },
        _ => None,
    }
}

/// Subtraction of two scalars, under the same rules as addition.
pub open spec fn spec_try_sub(a: ScalarV, b: ScalarV) -> Option<ScalarV> {
    match (a, b) {
        (ScalarV::Integer(x), ScalarV::Integer(y)) => if i32::MIN <= x - y <= i32::MAX {
            Some(ScalarV::Integer((x - y) as i32))
        } else {
            None
        },
        (ScalarV::Long(x), ScalarV::Long(y)) => if i64::MIN <= x - y <= i64::MAX {
            Some(ScalarV::Long((x - y) as i64))
        } else {
            None
        },
        (ScalarV::Short(x), ScalarV::Short(y)) => if i16::MIN <= x - y <= i16::MAX {
            Some(ScalarV::Short((x - y) as i16))
        } else {
            None
        },
        (ScalarV::Byte(x), ScalarV::Byte(y)) => if i8::MIN <= x - y <= i8::MAX {
            Some(ScalarV::Byte((x - y) as i8))
        } else {
            None
        },
        _ => None,
    }
}

/// Multiplication of two scalars, under the same rules as addition.
pub open spec fn spec_try_mul(a: ScalarV, b: ScalarV) -> Option<ScalarV> {
    match (a, b) {
        (ScalarV::Integer(x), ScalarV::Integer(y)) => if i32::MIN <= x * y <= i32::MAX {
            Some(ScalarV::Integer((x * y) as i32))
        } else {
            None
        },
        (ScalarV::Long(x), ScalarV::Long(y)) => if i64::MIN <= x * y <= i64::MAX {
            Some(ScalarV::Long((x * y) as i64))
        } else {
            None
        },
        (ScalarV::Short(x), ScalarV::Short(y)) => if i16::MIN <= x * y <= i16::MAX {
            Some(ScalarV::Short((x * y) as i16))
        } else {
            None
        },
        (ScalarV::Byte(x), ScalarV::Byte(y)) => if i8::MIN <= x * y <= i8::MAX {
            Some(ScalarV::Byte((x * y) as i8))
        } else {
            None
        },
        _ => None,
    }
}

/// Truncating division of two scalars: defined only for equal integral
/// variants, with division by zero and overflow yielding nothing.
pub open spec fn spec_try_div(a: ScalarV, b: ScalarV) -> Option<ScalarV> {
    match (a, b) {
        (ScalarV::Integer(x), ScalarV::Integer(y)) => if y == 0 || !(i32::MIN <= tdiv(
            x as int,
            y as int,
        ) <= i32::MAX) {
            None
        } else {
            Some(ScalarV::Integer(tdiv(x as int, y as int) as i32))
        },
        (ScalarV::Long(x), ScalarV::Long(y)) => if y == 0 || !(i64::MIN <= tdiv(
            x as int,
            y as int,
        ) <= i64::MAX) {
            None
        } else {
            Some(ScalarV::Long(tdiv(x as int, y as int) as i64))
        },
        (ScalarV::Short(x), ScalarV::Short(y)) => if y == 0 || !(i16::MIN <= tdiv(
            x as int,
            y as int,
        ) <= i16::MAX) {
            None
        } else {
            Some(ScalarV::Short(tdiv(x as int, y as int) as i16))
        },
        (ScalarV::Byte(x), ScalarV::Byte(y)) => if y == 0 || !(i8::MIN <= tdiv(
            x as int,
            y as int,
        ) <= i8::MAX) {
            None
        } else {
            Some(ScalarV::Byte(tdiv(x as int, y as int) as i8))
        },
        _ => None,
    }
}

impl Scalar {
    /// Attempts to add two scalars, returning nothing if they were
    /// incompatible or the sum overflows.
    pub fn try_add(&self, other: &Scalar) -> (r: Option<Scalar>)
        ensures
            opt_sc_view(r) == spec_try_add(self@, other@),
    {
        match (self, other) {
            (Scalar::Integer(a), Scalar::Integer(b)) => match a.checked_add(*b) {
                Some(v) => Some(Scalar::Integer(v)),
                None => None,
            },
            (Scalar::Long(a), Scalar::Long(b)) => match a.checked_add(*b) {
                Some(v) => Some(Scalar::Long(v)),
                None => None,
            },
            (Scalar::Short(a), Scalar::Short(b)) => match a.checked_add(*b) {
                Some(v) => Some(Scalar::Short(v)),
                None => None,
            },
            (Scalar::Byte(a), Scalar::Byte(b)) => match a.checked_add(*b) {
                Some(v) => Some(Scalar::Byte(v)),
                None => None,
            },
            _ => None,
        }
    }

    /// Attempts to subtract two scalars, returning nothing if they were
    /// incompatible or the difference overflows.
    pub fn try_sub(&self, other: &Scalar) -> (r: Option<Scalar>)
        ensures
            opt_sc_view(r) == spec_try_sub(self@, other@),
    {
        match (self, other) {
            (Scalar::Integer(a), Scalar::Integer(b)) => match a.checked_sub(*b) {
                Some(v) => Some(Scalar::Integer(v)),
                None => None,
            },
            (Scalar::Long(a), Scalar::Long(b)) => match a.checked_sub(*b) {
                Some(v) => Some(Scalar::Long(v)),
                None => None,
            },
            (Scalar::Short(a), Scalar::Short(b)) => match a.checked_sub(*b) {
                Some(v) => Some(Scalar::Short(v)),
                None => None,
            },
            (Scalar::Byte(a), Scalar::Byte(b)) => match a.checked_sub(*b) {
                Some(v) => Some(Scalar::Byte(v)),
                None => None,
            },
            _ => None,
        }
    }

    /// Attempts to multiply two scalars, returning nothing if they were
    /// incompatible or the product overflows.
    pub fn try_mul(&self, other: &Scalar) -> (r: Option<Scalar>)
        ensures
            opt_sc_view(r) == spec_try_mul(self@, other@),
    {
        match (self, other) {
            (Scalar::Integer(a), Scalar::Integer(b)) => match a.checked_mul(*b) {
                Some(v) => Some(Scalar::Integer(v)),
                None => None,
            },
            (Scalar::Long(a), Scalar::Long(b)) => match a.checked_mul(*b) {
                Some(v) => Some(Scalar::Long(v)),
                None => None,
            },
            (Scalar::Short(a), Scalar::Short(b)) => match a.checked_mul(*b) {
                Some(v) => Some(Scalar::Short(v)),
                None => None,
            },
            (Scalar::Byte(a), Scalar::Byte(b)) => match a.checked_mul(*b) {
                Some(v) => Some(Scalar::Byte(v)),
                None => None,
            },
            _ => None,
        }
    }

    /// Attempts to divide two scalars, returning nothing if they were
    /// incompatible, the divisor is zero, or the quotient overflows.
    pub fn try_div(&self, other: &Scalar) -> (r: Option<Scalar>)
        ensures
            opt_sc_view(r) == spec_try_div(self@, other@),
    {
        match (self, other) {
            (Scalar::Integer(a), Scalar::Integer(b)) => match a.checked_div(*b) {
                Some(v) => Some(Scalar::Integer(v)),
                None => None,
            },
            (Scalar::Long(a), Scalar::Long(b)) => match a.checked_div(*b) {
                Some(v) => Some(Scalar::Long(v)),
                None => None,
            },
            (Scalar::Short(a), Scalar::Short(b)) => match a.checked_div(*b) {
                Some(v) => Some(Scalar::Short(v)),
                None => None,
            },
            (Scalar::Byte(a), Scalar::Byte(b)) => match a.checked_div(*b) {
                Some(v) => Some(Scalar::Byte(v)),
                None => None,
            },
            _ => None,
        }
    }
}

/// Relies on chrono's `DateTime::from_timestamp_millis` and
/// `timestamp_micros`: a millisecond timestamp inside chrono's datetime
/// range converts to exactly a thousand times as many microseconds, and an
/// out-of-range input yields nothing. Chrono's dates reach about 262,000
/// years either side of the common era (its year bound is
/// `(i32::MAX >> 13) - 1`), so eight quadrillion milliseconds — roughly
/// 253,000 years — is comfortably within range.
#[verifier::external_body]
fn millis_to_micros(millis: i64) -> (r: Option<i64>)
    ensures
        r matches Some(us) ==> us == millis * 1000,
        -8000000000000000 <= millis <= 8000000000000000 ==> r is Some,
{
    chrono::DateTime::from_timestamp_millis(millis).map(|dt| dt.timestamp_micros())
}

impl Scalar {
    /// Builds a UTC timestamp scalar from milliseconds since the epoch;
    /// succeeds on every timestamp within eight quadrillion milliseconds of
    /// the epoch.
    pub(crate) fn timestamp_from_millis(millis: i64) -> (r: DeltaResult<Scalar>)
        ensures
            r matches Ok(s) ==> s@ matches ScalarV::Timestamp(us) && us == millis * 1000,
            r matches Err(e) ==> e is Generic,
            -8000000000000000 <= millis <= 8000000000000000 ==> r is Ok,
    {
        match millis_to_micros(millis) {
            Some(us) => Ok(Scalar::Timestamp(us)),
            None => Err(Error::generic("failed to create millisecond timestamp")),
        }
    }
}

/// Deep copy of a scalar, with the same view.
pub fn clone_scalar(s: &Scalar) -> (r: Scalar)
    ensures
        r@ == s@,
    decreases *s,
{
    match s {
        Scalar::Integer(x) => Scalar::Integer(*x),
        Scalar::Long(x) => Scalar::Long(*x),
        Scalar::Short(x) => Scalar::Short(*x),
        Scalar::Byte(x) => Scalar::Byte(*x),
        Scalar::String(x) => Scalar::String(x.clone()),
        Scalar::Boolean(x) => Scalar::Boolean(*x),
        Scalar::Timestamp(x) => Scalar::Timestamp(*x),
        Scalar::TimestampNtz(x) => Scalar::TimestampNtz(*x),
        Scalar::Date(x) => Scalar::Date(*x),
        Scalar::Binary(x) => Scalar::Binary(clone_bytes(x)),
        Scalar::Decimal(d) => Scalar::Decimal(*d),
        Scalar::Null(dt) => Scalar::Null(clone_data_type(dt)),
        Scalar::Struct(sd) => Scalar::Struct(
            StructData { fields: clone_fields(&sd.fields), values: clone_elems(&sd.values) },
        ),
        Scalar::Array(ad) => Scalar::Array(
            ArrayData { tpe: ad.tpe.clone(), elements: clone_elems(&ad.elements) },
        ),
        Scalar::Mapping(md) => Scalar::Mapping(
            MapData { data_type: md.data_type.clone(), pairs: clone_pairs(&md.pairs) },
        ),
    }
}

/// Copy of a byte vector.
pub fn clone_bytes(v: &Vec<u8>) -> (r: Vec<u8>)
    ensures
        r@ == v@,
{
    let mut out: Vec<u8> = Vec::new();
    let n = v.len();
    for i in 0..n
        invariant
            n == v@.len(),
            out@ =~= v@.take(i as int),
    {
        out.push(v[i]);
        proof {
            assert(v@.take(i + 1) =~= v@.take(i as int).push(v@[i as int]));
        }
    }
    proof {
        assert(v@.take(n as int) =~= v@);
    }
    out
}

/// Deep copy of a scalar vector, with the same views.
pub fn clone_elems(v: &Vec<Scalar>) -> (r: Vec<Scalar>)
    ensures
        elems_view(r@) == elems_view(v@),
    decreases *v,
{
    proof {
        lemma_elems_view(v@);
    }
    let mut out: Vec<Scalar> = Vec::new();
    let n = v.len();
    for i in 0..n
        invariant
            n == v@.len(),
            out@.len() == i,
            forall|j: int|
                #![trigger out@[j]]
                0 <= j < i ==> out@[j]@ == v@[j]@,
    {
        assert(decreases_to!(*v => v@[i as int]));
        out.push(clone_scalar(&v[i]));
    }
    proof {
        lemma_elems_view(out@);
        assert forall|j: int| 0 <= j < v@.len() implies elems_view(out@)[j] == elems_view(
            v@,
        )[j] by {
            assert(out@[j]@ == v@[j]@);
        }
        assert(elems_view(out@) =~= elems_view(v@));
    }
    out
}

/// Deep copy of a scalar pair vector, with the same views.
pub fn clone_pairs(v: &Vec<(Scalar, Scalar)>) -> (r: Vec<(Scalar, Scalar)>)
    ensures
        pairs_view(r@) == pairs_view(v@),
    decreases *v,
{
    proof {
        lemma_pairs_view(v@);
    }
    let mut out: Vec<(Scalar, Scalar)> = Vec::new();
    let n = v.len();
    for i in 0..n
        invariant
            n == v@.len(),
            out@.len() == i,
            forall|j: int|
                #![trigger out@[j]]
                0 <= j < i ==> out@[j].0@ == v@[j].0@ && out@[j].1@ == v@[j].1@,
    {
        assert(decreases_to!(*v => v@[i as int]));
        assert(decreases_to!(v@[i as int] => v@[i as int].0));
        let k = clone_scalar(&v[i].0);
        let w = clone_scalar(&v[i].1);
        out.push((k, w));
    }
    proof {
        lemma_pairs_view(out@);
        assert forall|j: int| 0 <= j < v@.len() implies pairs_view(out@)[j] == pairs_view(
            v@,
        )[j] by {
            assert(out@[j].0@ == v@[j].0@ && out@[j].1@ == v@[j].1@);
        }
        assert(pairs_view(out@) =~= pairs_view(v@));
    }
    out
}

impl Clone for Scalar {
    fn clone(&self) -> (r: Self)
        ensures
            r@ == self@,
    {
        clone_scalar(self)
    }
}

impl Clone for ArrayData {
    fn clone(&self) -> (r: Self)
        ensures
            r@ == self@,
    {
        ArrayData { tpe: self.tpe.clone(), elements: clone_elems(&self.elements) }
    }
}

impl Clone for MapData {
    fn clone(&self) -> (r: Self)
        ensures
            r@ == self@,
    {
        MapData { data_type: self.data_type.clone(), pairs: clone_pairs(&self.pairs) }
    }
}

impl Clone for StructData {
    fn clone(&self) -> (r: Self)
        ensures
            r@ == self@,
    {
        StructData { fields: clone_fields(&self.fields), values: clone_elems(&self.values) }
    }
}

impl vstd::std_specs::convert::FromSpecImpl<i8> for Scalar {
    open spec fn obeys_from_spec() -> bool {
        true
    }

    open spec fn from_spec(v: i8) -> Scalar {
        Scalar::Byte(v)
    }
}

impl From<i8> for Scalar {
    fn from(v: i8) -> (r: Scalar) {
        Scalar::Byte(v)
    }
}

impl vstd::std_specs::convert::FromSpecImpl<i16> for Scalar {
    open spec fn obeys_from_spec() -> bool {
        true
    }

    open spec fn from_spec(v: i16) -> Scalar {
        Scalar::Short(v)
    }
}

impl From<i16> for Scalar {
    fn from(v: i16) -> (r: Scalar) {
        Scalar::Short(v)
    }
}

impl vstd::std_specs::convert::FromSpecImpl<i32> for Scalar {
    open spec fn obeys_from_spec() -> bool {
        true
    }

    open spec fn from_spec(v: i32) -> Scalar {
        Scalar::Integer(v)
    }
}

impl From<i32> for Scalar {
    fn from(v: i32) -> (r: Scalar) {
        Scalar::Integer(v)
    }
}

impl vstd::std_specs::convert::FromSpecImpl<i64> for Scalar {
    open spec fn obeys_from_spec() -> bool {
        true
    }

    open spec fn from_spec(v: i64) -> Scalar {
        Scalar::Long(v)
    }
}

impl From<i64> for Scalar {
    fn from(v: i64) -> (r: Scalar) {
        Scalar::Long(v)
    }
}

impl vstd::std_specs::convert::FromSpecImpl<bool> for Scalar {
    open spec fn obeys_from_spec() -> bool {
        true
    }

    open spec fn from_spec(v: bool) -> Scalar {
        Scalar::Boolean(v)
    }
}

impl From<bool> for Scalar {
    fn from(v: bool) -> (r: Scalar) {
        Scalar::Boolean(v)
    }
}

impl vstd::std_specs::convert::FromSpecImpl<String> for Scalar {
    open spec fn obeys_from_spec() -> bool {
        true
    }

    open spec fn from_spec(v: String) -> Scalar {
        Scalar::String(v)
    }
}

impl From<String> for Scalar {
    fn from(v: String) -> (r: Scalar) {
        Scalar::String(v)
    }
}

impl vstd::std_specs::convert::FromSpecImpl<&str> for Scalar {
    open spec fn obeys_from_spec() -> bool {
        false
    }

    open spec fn from_spec(v: &str) -> Scalar {
        arbitrary()
    }
}

impl From<&str> for Scalar {
    fn from(v: &str) -> (r: Scalar)
        ensures
            r@ == ScalarV::String(v@),
    {
        Scalar::String(String::from_str(v))
    }
}

impl vstd::std_specs::convert::FromSpecImpl<DecimalData> for Scalar {
    open spec fn obeys_from_spec() -> bool {
        true
    }

    open spec fn from_spec(v: DecimalData) -> Scalar {
        Scalar::Decimal(v)
    }
}

impl From<DecimalData> for Scalar {
    fn from(v: DecimalData) -> (r: Scalar) {
        Scalar::Decimal(v)
    }
}


} // verus!
