//! Table schema model: primitive types, decimal types, arrays, maps and
//! struct schemas. Each type has a mathematical view (`DataTypeV`, `FieldV`)
//! and the executable operations are specified against those views.
use vstd::prelude::*;

verus! {

use crate::strings::str_eq;

/// Precision and scale of a decimal type. Valid when `scale <= precision <= 38`.
#[derive(Debug, Clone, Copy, PartialEq, Eq, Structural)]
pub struct DecimalType {
    pub precision: u8,
    pub scale: u8,
}

impl DecimalType {
    /// Whether the pair of precision and scale is admitted by the format.
    pub open spec fn valid(self) -> bool {
        self.scale <= self.precision <= 38
    }

    /// Builds a decimal type, rejecting precision above 38 and scale above the
    /// precision.
    pub fn try_new(precision: u8, scale: u8) -> (r: Result<Self, crate::error::Error>)
        ensures
            r is Ok <==> scale <= precision <= 38,
            r matches Ok(t) ==> t == (DecimalType { precision, scale }),
    {
        if precision <= 38 && scale <= precision {
            Ok(DecimalType { precision, scale })
        } else {
            Err(crate::error::Error::schema("invalid decimal precision or scale"))
        }
    }

    pub fn precision(&self) -> (r: u8)
        ensures
            r == self.precision,
    {
        self.precision
    }

    pub fn scale(&self) -> (r: u8)
        ensures
            r == self.scale,
    {
        self.scale
    }
}

/// The primitive column types of the format.
#[derive(Debug, Clone, Copy, PartialEq, Eq, Structural)]
pub enum PrimitiveType {
    String,
    Long,
    Integer,
    Short,
    Byte,
    Float,
    Double,
    Boolean,
    Binary,
    Date,
    Timestamp,
    TimestampNtz,
    Decimal(DecimalType),
}

/// A column type: a primitive, an array, a struct, or a map.
#[derive(Debug)]
pub enum DataType {
    Primitive(PrimitiveType),
    Array(Box<ArrayType>),
    Struct(Box<StructType>),
    Mapping(Box<MapType>),
}

/// An array type: the element type and whether elements may be null.
#[derive(Debug)]
pub struct ArrayType {
    pub element_type: DataType,
    pub contains_null: bool,
}

/// A map type: key and value types, and whether values may be null.
/// Keys are never null.
#[derive(Debug)]
pub struct MapType {
    pub key_type: DataType,
    pub value_type: DataType,
    pub value_contains_null: bool,
}

/// One field of a struct schema.
#[derive(Debug)]
pub struct StructField {
    pub name: String,
    pub data_type: DataType,
    pub nullable: bool,
}

/// An ordered struct schema.
#[derive(Debug)]
pub struct StructType {
    pub fields: Vec<StructField>,
}

/// The mathematical value of a column type.
pub enum DataTypeV {
    Primitive(PrimitiveType),
    /// Element type and whether elements may be null.
    Array(Box<DataTypeV>, bool),
    Struct(Seq<FieldV>),
    /// Key type, value type, and whether values may be null.
    Mapping(Box<DataTypeV>, Box<DataTypeV>, bool),
}

/// The mathematical value of a struct field.
pub struct FieldV {
    pub name: Seq<char>,
    pub data_type: DataTypeV,
    pub nullable: bool,
}

/// The view of a data type.
pub open spec fn dt_view(a: DataType) -> DataTypeV
    decreases a,
{
    match a {
        DataType::Primitive(p) => DataTypeV::Primitive(p),
        DataType::Array(x) => DataTypeV::Array(Box::new(dt_view(x.element_type)), x.contains_null),
        DataType::Struct(x) => DataTypeV::Struct(fields_view(x.fields@)),
        DataType::Mapping(x) => DataTypeV::Mapping(
            Box::new(dt_view(x.key_type)),
            Box::new(dt_view(x.value_type)),
            x.value_contains_null,
        ),
    }
}

/// The view of a struct field.
pub open spec fn sf_view(f: StructField) -> FieldV
    decreases f,
{
    FieldV { name: f.name@, data_type: dt_view(f.data_type), nullable: f.nullable }
}

/// The views of a sequence of struct fields, in order.
pub open spec fn fields_view(fields: Seq<StructField>) -> Seq<FieldV>
    decreases fields,
{
    if fields.len() == 0 {
        Seq::empty()
    } else {
        fields_view(fields.drop_last()).push(sf_view(fields.last()))
    }
}

/// `fields_view` maps the sequence pointwise.
pub proof fn lemma_fields_view(fields: Seq<StructField>)
    ensures
        fields_view(fields).len() == fields.len(),
        forall|i: int|
            #![trigger fields_view(fields)[i]]
            #![trigger fields[i]]
            0 <= i < fields.len() ==> fields_view(fields)[i] == sf_view(fields[i]),
    decreases fields.len(),
{
    if fields.len() > 0 {
        lemma_fields_view(fields.drop_last());
        assert forall|i: int| 0 <= i < fields.len() implies fields_view(fields)[i] == sf_view(
            fields[i],
        ) by {
            if i < fields.len() - 1 {
                assert(fields.drop_last()[i] == fields[i]);
            } else {
                assert(fields[i] == fields.last());
            }
        }
    }
}

impl View for DataType {
    type V = DataTypeV;

    open spec fn view(&self) -> DataTypeV {
        dt_view(*self)
    }
}

impl View for StructField {
    type V = FieldV;

    open spec fn view(&self) -> FieldV {
        sf_view(*self)
    }
}

impl View for StructType {
    type V = Seq<FieldV>;

    open spec fn view(&self) -> Seq<FieldV> {
        fields_view(self.fields@)
    }
}

impl View for ArrayType {
    type V = DataTypeV;

    open spec fn view(&self) -> DataTypeV {
        DataTypeV::Array(Box::new(dt_view(self.element_type)), self.contains_null)
    }
}

impl View for MapType {
    type V = DataTypeV;

    open spec fn view(&self) -> DataTypeV {
        DataTypeV::Mapping(
            Box::new(dt_view(self.key_type)),
            Box::new(dt_view(self.value_type)),
            self.value_contains_null,
        )
    }
}

/// Executable deep equality of data types, deciding equality of the views.
pub fn data_type_eq(a: &DataType, b: &DataType) -> (r: bool)
    ensures
        r == (a@ == b@),
    decreases *a,
{
    match (a, b) {
        (DataType::Primitive(p), DataType::Primitive(q)) => p == q,
        (DataType::Array(x), DataType::Array(y)) => {
            data_type_eq(&x.element_type, &y.element_type) && x.contains_null == y.contains_null
        },
        (DataType::Mapping(x), DataType::Mapping(y)) => {
            data_type_eq(&x.key_type, &y.key_type) && data_type_eq(&x.value_type, &y.value_type)
                && x.value_contains_null == y.value_contains_null
        },
        (DataType::Struct(x), DataType::Struct(y)) => struct_type_eq(x, y),
        _ => false,
    }
}

/// Executable deep equality of struct fields, deciding equality of the views.
pub fn struct_field_eq(a: &StructField, b: &StructField) -> (r: bool)
    ensures
        r == (a@ == b@),
    decreases *a,
{
    str_eq(a.name.as_str(), b.name.as_str()) && data_type_eq(&a.data_type, &b.data_type)
        && a.nullable == b.nullable
}

/// Executable deep equality of struct schemas, deciding equality of the views.
pub fn struct_type_eq(a: &StructType, b: &StructType) -> (r: bool)
    ensures
        r == (a@ == b@),
    decreases *a,
{
    proof {
        lemma_fields_view(a.fields@);
        lemma_fields_view(b.fields@);
    }
    if a.fields.len() != b.fields.len() {
        assert(a@.len() != b@.len());
        return false;
    }
    let n = a.fields.len();
    for i in 0..n
        invariant
            n == a.fields@.len() == b.fields@.len(),
            a@.len() == n,
            b@.len() == n,
            forall|j: int|
                #![trigger a.fields@[j]]
                0 <= j < n ==> a@[j] == sf_view(a.fields@[j]),
            forall|j: int|
                #![trigger b.fields@[j]]
                0 <= j < n ==> b@[j] == sf_view(b.fields@[j]),
            forall|j: int|
                #![trigger a.fields@[j]]
                0 <= j < i ==> sf_view(a.fields@[j]) == sf_view(b.fields@[j]),
    {
        assert(decreases_to!(*a => a.fields@[i as int]));
        if !struct_field_eq(&a.fields[i], &b.fields[i]) {
            assert(a@[i as int] != b@[i as int]);
            return false;
        }
    }
    assert(a@ =~= b@);
    true
}

impl vstd::std_specs::cmp::PartialEqSpecImpl for DataType {
    open spec fn obeys_eq_spec() -> bool {
        true
    }

    open spec fn eq_spec(&self, other: &DataType) -> bool {
        self@ == other@
    }
}

impl PartialEq for DataType {
    fn eq(&self, other: &DataType) -> (r: bool) {
        data_type_eq(self, other)
    }
}

impl vstd::std_specs::cmp::PartialEqSpecImpl for StructField {
    open spec fn obeys_eq_spec() -> bool {
        true
    }

    open spec fn eq_spec(&self, other: &StructField) -> bool {
        self@ == other@
    }
}

impl PartialEq for StructField {
    fn eq(&self, other: &StructField) -> (r: bool) {
        struct_field_eq(self, other)
    }
}

impl vstd::std_specs::cmp::PartialEqSpecImpl for StructType {
    open spec fn obeys_eq_spec() -> bool {
        true
    }

    open spec fn eq_spec(&self, other: &StructType) -> bool {
        self@ == other@
    }
}

impl PartialEq for StructType {
    fn eq(&self, other: &StructType) -> (r: bool) {
        struct_type_eq(self, other)
    }
}

/// Deep copy of a data type, with the same view.
pub fn clone_data_type(a: &DataType) -> (r: DataType)
    ensures
        r@ == a@,
    decreases *a,
{
    match a {
        DataType::Primitive(p) => DataType::Primitive(*p),
        DataType::Array(x) => DataType::Array(
            Box::new(
                ArrayType {
                    element_type: clone_data_type(&x.element_type),
                    contains_null: x.contains_null,
                },
            ),
        ),
        DataType::Mapping(x) => DataType::Mapping(
            Box::new(
                MapType {
                    key_type: clone_data_type(&x.key_type),
                    value_type: clone_data_type(&x.value_type),
                    value_contains_null: x.value_contains_null,
                },
            ),
        ),
        DataType::Struct(x) => DataType::Struct(Box::new(clone_struct_type(x))),
    }
}

/// Deep copy of a struct field, with the same view.
pub fn clone_struct_field(f: &StructField) -> (r: StructField)
    ensures
        r@ == f@,
    decreases *f,
{
    StructField {
        name: f.name.clone(),
        data_type: clone_data_type(&f.data_type),
        nullable: f.nullable,
    }
}

/// Deep copy of a field vector, with the same views.
pub fn clone_fields(v: &Vec<StructField>) -> (r: Vec<StructField>)
    ensures
        fields_view(r@) == fields_view(v@),
    decreases *v,
{
    proof {
        lemma_fields_view(v@);
    }
    let mut fields: Vec<StructField> = Vec::new();
    let n = v.len();
    for i in 0..n
        invariant
            n == v@.len(),
            fields@.len() == i,
            forall|j: int|
                #![trigger fields@[j]]
                0 <= j < i ==> fields@[j]@ == v@[j]@,
    {
        assert(decreases_to!(*v => v@[i as int]));
        fields.push(clone_struct_field(&v[i]));
    }
    proof {
        lemma_fields_view(fields@);
        assert forall|j: int| 0 <= j < v@.len() implies fields_view(fields@)[j] == fields_view(
            v@,
        )[j] by {
            assert(fields@[j]@ == v@[j]@);
        }
        assert(fields_view(fields@) =~= fields_view(v@));
    }
    fields
}

/// Deep copy of a struct schema, with the same view.
pub fn clone_struct_type(s: &StructType) -> (r: StructType)
    ensures
        r@ == s@,
    decreases *s,
{
    let f = clone_fields(&s.fields);
    StructType { fields: f }
}

impl Clone for DataType {
    fn clone(&self) -> (r: Self)
        ensures
            r@ == self@,
    {
        clone_data_type(self)
    }
}

impl Clone for ArrayType {
    fn clone(&self) -> (r: Self)
        ensures
            r@ == self@,
    {
        ArrayType {
            element_type: clone_data_type(&self.element_type),
            contains_null: self.contains_null,
        }
    }
}

impl Clone for MapType {
    fn clone(&self) -> (r: Self)
        ensures
            r@ == self@,
    {
        MapType {
            key_type: clone_data_type(&self.key_type),
            value_type: clone_data_type(&self.value_type),
            value_contains_null: self.value_contains_null,
        }
    }
}

impl Clone for StructField {
    fn clone(&self) -> (r: Self)
        ensures
            r@ == self@,
    {
        clone_struct_field(self)
    }
}

impl Clone for StructType {
    fn clone(&self) -> (r: Self)
        ensures
            r@ == self@,
    {
        clone_struct_type(self)
    }
}

impl DataType {
    pub fn string() -> (r: DataType)
        ensures
            r@ == DataTypeV::Primitive(PrimitiveType::String),
    {
        DataType::Primitive(PrimitiveType::String)
    }

    pub fn long() -> (r: DataType)
        ensures
            r@ == DataTypeV::Primitive(PrimitiveType::Long),
    {
        DataType::Primitive(PrimitiveType::Long)
    }

    pub fn integer() -> (r: DataType)
        ensures
            r@ == DataTypeV::Primitive(PrimitiveType::Integer),
    {
        DataType::Primitive(PrimitiveType::Integer)
    }

    pub fn short() -> (r: DataType)
        ensures
            r@ == DataTypeV::Primitive(PrimitiveType::Short),
    {
        DataType::Primitive(PrimitiveType::Short)
    }

    pub fn byte() -> (r: DataType)
        ensures
            r@ == DataTypeV::Primitive(PrimitiveType::Byte),
    {
        DataType::Primitive(PrimitiveType::Byte)
    }

    pub fn boolean() -> (r: DataType)
        ensures
            r@ == DataTypeV::Primitive(PrimitiveType::Boolean),
    {
        DataType::Primitive(PrimitiveType::Boolean)
    }

    pub fn binary() -> (r: DataType)
        ensures
            r@ == DataTypeV::Primitive(PrimitiveType::Binary),
    {
        DataType::Primitive(PrimitiveType::Binary)
    }

    pub fn date() -> (r: DataType)
        ensures
            r@ == DataTypeV::Primitive(PrimitiveType::Date),
    {
        DataType::Primitive(PrimitiveType::Date)
    }

    pub fn timestamp() -> (r: DataType)
        ensures
            r@ == DataTypeV::Primitive(PrimitiveType::Timestamp),
    {
        DataType::Primitive(PrimitiveType::Timestamp)
    }

    pub fn timestamp_ntz() -> (r: DataType)
        ensures
            r@ == DataTypeV::Primitive(PrimitiveType::TimestampNtz),
    {
        DataType::Primitive(PrimitiveType::TimestampNtz)
    }

    pub fn decimal(t: DecimalType) -> (r: DataType)
        ensures
            r@ == DataTypeV::Primitive(PrimitiveType::Decimal(t)),
    {
        DataType::Primitive(PrimitiveType::Decimal(t))
    }

    pub fn struct_type(fields: Vec<StructField>) -> (r: DataType)
        ensures
            r@ == DataTypeV::Struct(fields_view(fields@)),
    {
        DataType::Struct(Box::new(StructType { fields }))
    }
}

impl ArrayType {
    pub fn new(element_type: DataType, contains_null: bool) -> (r: ArrayType)
        ensures
            r == (ArrayType { element_type, contains_null }),
    {
        ArrayType { element_type, contains_null }
    }

    pub fn element_type(&self) -> (r: &DataType)
        ensures
            r == &self.element_type,
    {
        &self.element_type
    }

    pub fn contains_null(&self) -> (r: bool)
        ensures
            r == self.contains_null,
    {
        self.contains_null
    }
}

impl MapType {
    pub fn new(key_type: DataType, value_type: DataType, value_contains_null: bool) -> (r: MapType)
        ensures
            r == (MapType { key_type, value_type, value_contains_null }),
    {
        MapType { key_type, value_type, value_contains_null }
    }

    pub fn key_type(&self) -> (r: &DataType)
        ensures
            r == &self.key_type,
    {
        &self.key_type
    }

    pub fn value_type(&self) -> (r: &DataType)
        ensures
            r == &self.value_type,
    {
        &self.value_type
    }
}

impl StructField {
    /// A field that may hold nulls.
    pub fn nullable(name: &str, data_type: DataType) -> (r: StructField)
        ensures
            r@ == (FieldV { name: name@, data_type: data_type@, nullable: true }),
    {
        StructField { name: String::from_str(name), data_type, nullable: true }
    }

    /// A field that may not hold nulls.
    pub fn not_null(name: &str, data_type: DataType) -> (r: StructField)
        ensures
            r@ == (FieldV { name: name@, data_type: data_type@, nullable: false }),
    {
        StructField { name: String::from_str(name), data_type, nullable: false }
    }

    pub fn name(&self) -> (r: &String)
        ensures
            r == &self.name,
    {
        &self.name
    }

    pub fn data_type(&self) -> (r: &DataType)
        ensures
            r == &self.data_type,
    {
        &self.data_type
    }

    pub fn is_nullable(&self) -> (r: bool)
        ensures
            r == self.nullable,
    {
        self.nullable
    }
}

/// Whether `k` is the index of the first field named `name`.
pub open spec fn matched_first(fields: Seq<FieldV>, name: Seq<char>, k: int) -> bool {
    &&& 0 <= k < fields.len()
    &&& fields[k].name == name
    &&& forall|j: int| 0 <= j < k ==> #[trigger] fields[j].name != name
}

/// The first field named `name` in the sequence; arbitrary when absent.
pub open spec fn spec_lookup(fields: Seq<FieldV>, name: Seq<char>) -> FieldV
    decreases fields.len(),
{
    if fields.len() == 0 {
        arbitrary()
    } else if fields[0].name == name {
        fields[0]
    } else {
        spec_lookup(fields.drop_first(), name)
    }
}

/// A first-match index determines the looked-up field.
pub proof fn lemma_matched_first_lookup(fields: Seq<FieldV>, name: Seq<char>, k: int)
    requires
        matched_first(fields, name, k),
    ensures
        spec_lookup(fields, name) == fields[k],
    decreases fields.len(),
{
    if k == 0 {
    } else {
        assert(fields[0].name != name);
        assert(matched_first(fields.drop_first(), name, k - 1)) by {
            assert forall|j: int| 0 <= j < k - 1 implies #[trigger] fields.drop_first()[j].name
                != name by {
                assert(fields.drop_first()[j] == fields[j + 1]);
            }
        }
        lemma_matched_first_lookup(fields.drop_first(), name, k - 1);
    }
}

impl StructType {
    /// Whether some field carries the given name.
    pub open spec fn spec_has_field(self, name: Seq<char>) -> bool {
        exists|i: int| 0 <= i < self@.len() && #[trigger] self@[i].name == name
    }

    pub fn new(fields: Vec<StructField>) -> (r: StructType)
        ensures
            r == (StructType { fields }),
    {
        StructType { fields }
    }

    pub fn fields(&self) -> (r: &Vec<StructField>)
        ensures
            r == &self.fields,
    {
        &self.fields
    }

    /// The index of the first field named `name`, if any.
    pub fn index_of(&self, name: &str) -> (r: Option<usize>)
        ensures
            match r {
                Some(i) => matched_first(self@, name@, i as int),
                None => !self.spec_has_field(name@),
            },
    {
        proof {
            lemma_fields_view(self.fields@);
        }
        let n = self.fields.len();
        for i in 0..n
            invariant
                n == self.fields@.len(),
                self@.len() == n,
                forall|j: int|
                    #![trigger self.fields@[j]]
                    0 <= j < n ==> self@[j] == sf_view(self.fields@[j]),
                forall|j: int| 0 <= j < i ==> #[trigger] self@[j].name != name@,
        {
            if str_eq(self.fields[i].name.as_str(), name) {
                return Some(i);
            }
        }
        None
    }

    /// Projects the schema to the named columns, in the order given.
    /// Fails with a schema error if any name is absent.
    pub fn project(&self, names: &Vec<String>) -> (r: Result<StructType, crate::error::Error>)
        ensures
            match r {
                Ok(s) => {
                    &&& s@.len() == names@.len()
                    &&& forall|i: int|
                        #![trigger names@[i]]
                        0 <= i < names@.len() ==> self.spec_has_field(names@[i]@) && s@[i]
                            == spec_lookup(self@, names@[i]@)
                },
                Err(_) => exists|i: int|
                    0 <= i < names@.len() && !self.spec_has_field(#[trigger] names@[i]@),
            },
    {
        let mut out: Vec<StructField> = Vec::new();
        let n = names.len();
        let mut i: usize = 0;
        while i < n
            invariant
                n == names@.len(),
                i <= n,
                out@.len() == i,
                forall|j: int|
                    #![trigger names@[j]]
                    0 <= j < i ==> self.spec_has_field(names@[j]@) && out@[j]@ == spec_lookup(
                        self@,
                        names@[j]@,
                    ),
            decreases n - i,
        {
            match self.index_of(names[i].as_str()) {
                Some(k) => {
                    proof {
                        lemma_matched_first_lookup(self@, names@[i as int]@, k as int);
                        lemma_fields_view(self.fields@);
                    }
                    out.push(clone_struct_field(&self.fields[k]));
                },
                None => {
                    return Err(crate::error::Error::schema("projected column not found in schema"));
                },
            }
            i = i + 1;
        }
        let r = StructType { fields: out };
        proof {
            lemma_fields_view(r.fields@);
            assert forall|i2: int| 0 <= i2 < names@.len() implies self.spec_has_field(
                #[trigger] names@[i2]@,
            ) && r@[i2] == spec_lookup(self@, names@[i2]@) by {
                assert(r@[i2] == sf_view(r.fields@[i2]));
            }
        }
        Ok(r)
    }
}

/// A schema is a struct type.
pub type Schema = StructType;

} // verus!
