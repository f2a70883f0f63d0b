use vstd::prelude::*;

verus! {

/// Primitive type descriptors of the table format's logical schema.
/// `Decimal` carries precision and scale.
#[derive(Clone, Copy, Debug, PartialEq, Eq, Structural)]
pub enum PrimitiveType {
    String,
    Long,
    Integer,
    Short,
    Byte,
    Float,
    Double,
    Boolean,
    Binary,
    Date,
    Timestamp,
    TimestampNtz,
    Decimal(u8, u8),
}

/// A type descriptor of the table format: a primitive, or an array, struct
/// or map built from other descriptors.
#[derive(Debug)]
pub enum DeltaDataType {
    Primitive(PrimitiveType),
    Array(Box<ArrayType>),
    Struct(Vec<StructField>),
    Mapping(Box<MapType>),
}

/// Element type of a table-format array, and whether elements may be null.
#[derive(Debug)]
pub struct ArrayType {
    pub element_type: DeltaDataType,
    pub contains_null: bool,
}

/// One named, typed, nullable field of a table-format struct or schema.
#[derive(Debug)]
pub struct StructField {
    pub name: String,
    pub data_type: DeltaDataType,
    pub nullable: bool,
}

/// Key and value types of a table-format map.
#[derive(Debug)]
pub struct MapType {
    pub key_type: DeltaDataType,
    pub value_type: DeltaDataType,
}

/// Engine-side physical column types.
///
/// The engine encodes a list's element as a field named `item`, and a map as
/// a non-nullable entry struct named `key_value` whose `key` field is never
/// nullable and whose `value` field always is; those fixed names and
/// nullabilities are part of the encoding, so the model keeps only the
/// varying parts.
#[derive(Debug, PartialEq)]
pub enum ArrowDataType {
    Utf8,
    Int64,
    Int32,
    Int16,
    Int8,
    UInt16,
    Float32,
    Float64,
    Boolean,
    Binary,
    Date32,
    /// Microsecond timestamp tagged with the UTC time zone.
    TimestampMicrosecondUtc,
    /// Microsecond timestamp without a time zone tag.
    TimestampMicrosecond,
    Decimal128(u8, u8),
    List(Box<ArrowListType>),
    Struct(Vec<ArrowField>),
    Mapping(Box<ArrowMapType>),
    Dictionary(Box<ArrowDataType>, Box<ArrowDataType>),
}

/// Element type of an engine list, and whether elements may be null.
#[derive(Debug, PartialEq)]
pub struct ArrowListType {
    pub element_type: ArrowDataType,
    pub element_nullable: bool,
}

/// Key and value types of an engine map.
#[derive(Debug, PartialEq)]
pub struct ArrowMapType {
    pub key_type: ArrowDataType,
    pub value_type: ArrowDataType,
}

/// One named, typed, nullable field of an engine schema.
#[derive(Debug, PartialEq)]
pub struct ArrowField {
    pub name: String,
    pub data_type: ArrowDataType,
    pub nullable: bool,
}

/// The fixed primitive mapping table between the table format's primitive
/// descriptors and the engine's physical column types.
pub open spec fn spec_map_primitive(p: PrimitiveType) -> ArrowDataType {
    match p {
        PrimitiveType::String => ArrowDataType::Utf8,
        PrimitiveType::Long => ArrowDataType::Int64,
        PrimitiveType::Integer => ArrowDataType::Int32,
        PrimitiveType::Short => ArrowDataType::Int16,
        PrimitiveType::Byte => ArrowDataType::Int8,
        PrimitiveType::Float => ArrowDataType::Float32,
        PrimitiveType::Double => ArrowDataType::Float64,
        PrimitiveType::Boolean => ArrowDataType::Boolean,
        PrimitiveType::Binary => ArrowDataType::Binary,
        PrimitiveType::Date => ArrowDataType::Date32,
        PrimitiveType::Timestamp => ArrowDataType::TimestampMicrosecondUtc,
        PrimitiveType::TimestampNtz => ArrowDataType::TimestampMicrosecond,
        PrimitiveType::Decimal(precision, scale) => ArrowDataType::Decimal128(precision, scale),
    }
}

/// `r` is the engine type that the table-format descriptor `t` maps to:
/// primitives by the fixed table, arrays to lists, structs to ordered structs
/// preserving each field's name and nullability, and maps to engine maps.
pub open spec fn is_mapped_type(t: DeltaDataType, r: ArrowDataType) -> bool
    decreases t,
{
    match t {
        DeltaDataType::Primitive(p) => r == spec_map_primitive(p),
        DeltaDataType::Array(a) => match r {
            ArrowDataType::List(l) => is_mapped_type(a.element_type, l.element_type)
                && l.element_nullable == a.contains_null,
            _ => false,
        },
        DeltaDataType::Struct(fields) => match r {
            ArrowDataType::Struct(rfields) => rfields@.len() == fields@.len() && (forall|i: int|
                0 <= i < fields@.len() ==> is_mapped_field(#[trigger] fields@[i], rfields@[i])),
            _ => false,
        },
        DeltaDataType::Mapping(m) => match r {
            ArrowDataType::Mapping(rm) => is_mapped_type(m.key_type, rm.key_type) && is_mapped_type(
                m.value_type,
                rm.value_type,
            ),
            _ => false,
        },
    }
}

/// `r` is the engine field derived from the table-format field `f`: same
/// name, same nullability, mapped type.
pub open spec fn is_mapped_field(f: StructField, r: ArrowField) -> bool
    decreases f,
{
    r.name == f.name && r.nullable == f.nullable && is_mapped_type(f.data_type, r.data_type)
}

/// Maps a primitive descriptor by the fixed table.
pub fn map_primitive_type(p: &PrimitiveType) -> (r: ArrowDataType)
    ensures
        r == spec_map_primitive(*p),
{
    match p {
        PrimitiveType::String => ArrowDataType::Utf8,
        PrimitiveType::Long => ArrowDataType::Int64,
        PrimitiveType::Integer => ArrowDataType::Int32,
        PrimitiveType::Short => ArrowDataType::Int16,
        PrimitiveType::Byte => ArrowDataType::Int8,
        PrimitiveType::Float => ArrowDataType::Float32,
        PrimitiveType::Double => ArrowDataType::Float64,
        PrimitiveType::Boolean => ArrowDataType::Boolean,
        PrimitiveType::Binary => ArrowDataType::Binary,
        PrimitiveType::Date => ArrowDataType::Date32,
        PrimitiveType::Timestamp => ArrowDataType::TimestampMicrosecondUtc,
        PrimitiveType::TimestampNtz => ArrowDataType::TimestampMicrosecond,
        PrimitiveType::Decimal(precision, scale) => ArrowDataType::Decimal128(*precision, *scale),
    }
}

/// Maps a table-format type descriptor to the engine type it is stored and
/// scanned as. Total: defined for every descriptor, with no error path.
pub fn map_delta_data_type_to_arrow_data_type(delta_data_type: &DeltaDataType) -> (r:
    ArrowDataType)
    ensures
        is_mapped_type(*delta_data_type, r),
    decreases *delta_data_type,
{
    match delta_data_type {
        DeltaDataType::Primitive(p) => map_primitive_type(p),
        DeltaDataType::Array(a) => ArrowDataType::List(
            Box::new(
                ArrowListType {
                    element_type: map_delta_data_type_to_arrow_data_type(&a.element_type),
                    element_nullable: a.contains_null,
                },
            ),
        ),
        DeltaDataType::Struct(fields) => {
            let mut rfields: Vec<ArrowField> = Vec::new();
            let n = fields.len();
            let mut i: usize = 0;
            while i < n
                invariant
                    *delta_data_type == DeltaDataType::Struct(*fields),
                    n == fields@.len(),
                    i <= n,
                    rfields@.len() == i,
                    forall|j: int| 0 <= j < i ==> is_mapped_field(#[trigger] fields@[j], rfields@[j]),
                decreases n - i,
            {
                let f = &fields[i];
                proof {
                    broadcast use vstd::std_specs::vec::group_vec_axioms;

                    assert(decreases_to!(*delta_data_type => delta_data_type->Struct_0));
                    assert(delta_data_type->Struct_0 == *fields);
                    assert(decreases_to!(*fields => fields@));
                    assert(decreases_to!(fields@ => fields@[i as int]));
                }
                let mapped = map_delta_data_type_to_arrow_data_type(&f.data_type);
                rfields.push(
                    ArrowField { name: f.name.clone(), data_type: mapped, nullable: f.nullable },
                );
                i += 1;
            }
            ArrowDataType::Struct(rfields)
        },
        DeltaDataType::Mapping(m) => ArrowDataType::Mapping(
            Box::new(
                ArrowMapType {
                    key_type: map_delta_data_type_to_arrow_data_type(&m.key_type),
                    value_type: map_delta_data_type_to_arrow_data_type(&m.value_type),
                },
            ),
        ),
    }
}

/// Structural sameness of two engine types: the same shape throughout,
/// with struct field names compared as string values.
pub open spec fn arrow_type_matches(a: ArrowDataType, b: ArrowDataType) -> bool
    decreases a,
{
    match a {
        ArrowDataType::List(al) => b matches ArrowDataType::List(bl) && arrow_type_matches(
            al.element_type,
            bl.element_type,
        ) && al.element_nullable == bl.element_nullable,
        ArrowDataType::Struct(afields) => b matches ArrowDataType::Struct(bfields)
            && afields@.len() == bfields@.len() && (forall|i: int|
            0 <= i < afields@.len() ==> (#[trigger] afields@[i]).name == bfields@[i].name
                && afields@[i].nullable == bfields@[i].nullable && arrow_type_matches(
                afields@[i].data_type,
                bfields@[i].data_type,
            )),
        ArrowDataType::Mapping(am) => b matches ArrowDataType::Mapping(bm) && arrow_type_matches(
            am.key_type,
            bm.key_type,
        ) && arrow_type_matches(am.value_type, bm.value_type),
        ArrowDataType::Dictionary(ak, av) => b matches ArrowDataType::Dictionary(bk, bv)
            && arrow_type_matches(*ak, *bk) && arrow_type_matches(*av, *bv),
        _ => b == a,
    }
}

/// The type mapping is deterministic: any two engine types mapped from the
/// same table-format descriptor are structurally the same, so mapping the
/// same source type twice yields identical results. Together with the
/// mapping function's absence of preconditions, every descriptor maps to
/// exactly one fixed engine type.
pub proof fn lemma_mapped_type_deterministic(t: DeltaDataType, r1: ArrowDataType, r2: ArrowDataType)
    requires
        is_mapped_type(t, r1),
        is_mapped_type(t, r2),
    ensures
        arrow_type_matches(r1, r2),
    decreases t,
{
    match t {
        DeltaDataType::Primitive(p) => {
        },
        DeltaDataType::Array(a) => {
            match (r1, r2) {
                (ArrowDataType::List(l1), ArrowDataType::List(l2)) => {
                    lemma_mapped_type_deterministic(
                        a.element_type,
                        l1.element_type,
                        l2.element_type,
                    );
                },
                _ => {
                    assert(false);
                },
            }
        },
        DeltaDataType::Struct(fields) => {
            match (r1, r2) {
                (ArrowDataType::Struct(f1), ArrowDataType::Struct(f2)) => {
                    assert forall|i: int| 0 <= i < f1@.len() implies (#[trigger] f1@[i]).name
                        == f2@[i].name && f1@[i].nullable == f2@[i].nullable && arrow_type_matches(
                        f1@[i].data_type,
                        f2@[i].data_type,
                    ) by {
                        assert(is_mapped_field(fields@[i], f1@[i]));
                        assert(is_mapped_field(fields@[i], f2@[i]));
                        lemma_mapped_type_deterministic(
                            fields@[i].data_type,
                            f1@[i].data_type,
                            f2@[i].data_type,
                        );
                    }
                },
                _ => {
                    assert(false);
                },
            }
        },
        DeltaDataType::Mapping(m) => {
            match (r1, r2) {
                (ArrowDataType::Mapping(m1), ArrowDataType::Mapping(m2)) => {
                    lemma_mapped_type_deterministic(m.key_type, m1.key_type, m2.key_type);
                    lemma_mapped_type_deterministic(m.value_type, m1.value_type, m2.value_type);
                },
                _ => {
                    assert(false);
                },
            }
        },
    }
}

} // verus!
