//! Accessor plans: how the field stored at a slot is read from a buffer.
use vstd::prelude::*;
use vstd::string::*;
use crate::types::{FieldType, TypeModel, base_text, is_builtin_repr, scalars_builtin};

verus! {

/// How one field is read back from a table buffer.
#[derive(Debug, PartialEq, Eq)]
pub enum Accessor {
    /// Reads the scalar at `slot` as `repr`, or `default` when the slot is absent.
    ReadScalar { repr: String, slot: u8, default: String },
    /// Reads a raw value with `raw`, then decodes it into the enum `name`.
    DecodeEnum { name: String, raw: Box<Accessor> },
    /// Reads the tag from the field `discriminant` and the table at `slot`,
    /// and builds the variant of union `name` they address.
    ReadUnion { name: String, discriminant: String, slot: u8 },
    /// Reads an optional reference to a nested table `name` at `slot`.
    ReadTable { name: String, slot: u8 },
    /// Reads an optional sequence of `element` entries at `slot`.
    ReadVector { element: String, slot: u8 },
}

pub ghost enum AccessorModel {
    ReadScalar { repr: Seq<char>, slot: u8, default: Seq<char> },
    DecodeEnum { name: Seq<char>, raw: Box<AccessorModel> },
    ReadUnion { name: Seq<char>, discriminant: Seq<char>, slot: u8 },
    ReadTable { name: Seq<char>, slot: u8 },
    ReadVector { element: Seq<char>, slot: u8 },
}

impl View for Accessor {
    type V = AccessorModel;

    open spec fn view(&self) -> AccessorModel
        decreases self,
    {
        match self {
            Accessor::ReadScalar { repr, slot, default } => AccessorModel::ReadScalar {
                repr: repr@,
                slot: *slot,
                default: default@,
            },
            Accessor::DecodeEnum { name, raw } => AccessorModel::DecodeEnum {
                name: name@,
                raw: Box::new((**raw).view()),
            },
            Accessor::ReadUnion { name, discriminant, slot } => AccessorModel::ReadUnion {
                name: name@,
                discriminant: discriminant@,
                slot: *slot,
            },
            Accessor::ReadTable { name, slot } => AccessorModel::ReadTable {
                name: name@,
                slot: *slot,
            },
            Accessor::ReadVector { element, slot } => AccessorModel::ReadVector {
                element: element@,
                slot: *slot,
            },
        }
    }
}

/// The name of the field that holds the tag of union `name`.
pub open spec fn discriminant_of(name: Seq<char>) -> Seq<char> {
    name + "_type"@
}

/// The accessor plan for a field of type `t` stored at `slot`. Only scalars
/// (read directly or through an enum) carry the default literal.
pub open spec fn accessor_of(t: TypeModel, slot: u8, default: Seq<char>) -> AccessorModel
    decreases t,
{
    match t {
        TypeModel::Scalar(repr) => AccessorModel::ReadScalar { repr, slot, default },
        TypeModel::Enum(name, base) => AccessorModel::DecodeEnum {
            name,
            raw: Box::new(accessor_of(*base, slot, default)),
        },
        TypeModel::Union(name) => AccessorModel::ReadUnion {
            name,
            discriminant: discriminant_of(name),
            slot,
        },
        TypeModel::Table(name) => AccessorModel::ReadTable { name, slot },
        TypeModel::Vector(e) => AccessorModel::ReadVector { element: base_text(*e), slot },
    }
}

/// What an accessor yields when its slot is absent from the buffer.
pub ghost enum AbsentValue {
    /// The default literal, read as a scalar.
    Default(Seq<char>),
    /// The inner outcome, decoded into the named enum.
    Decoded(Seq<char>, Box<AbsentValue>),
    /// No value.
    Nothing,
    /// An absent sequence.
    NoSequence,
}

/// The outcome of running accessor `a` on a buffer whose slot is unset.
pub open spec fn when_absent(a: AccessorModel) -> AbsentValue
    decreases a,
{
    match a {
        AccessorModel::ReadScalar { default, .. } => AbsentValue::Default(default),
        AccessorModel::DecodeEnum { name, raw } => AbsentValue::Decoded(
            name,
            Box::new(when_absent(*raw)),
        ),
        AccessorModel::ReadUnion { .. } => AbsentValue::Nothing,
        AccessorModel::ReadTable { .. } => AbsentValue::Nothing,
        AccessorModel::ReadVector { .. } => AbsentValue::NoSequence,
    }
}

/// A table, union or vector field whose slot is absent yields no value,
/// whatever default literal the schema gave it: the plan does not depend on it.
pub proof fn lemma_reference_fields_ignore_default(
    t: TypeModel,
    slot: u8,
    d1: Seq<char>,
    d2: Seq<char>,
)
    requires
        t is Table || t is Union || t is Vector,
    ensures
        accessor_of(t, slot, d1) == accessor_of(t, slot, d2),
        t is Table ==> when_absent(accessor_of(t, slot, d1)) == AbsentValue::Nothing,
        t is Union ==> when_absent(accessor_of(t, slot, d1)) == AbsentValue::Nothing,
        t is Vector ==> when_absent(accessor_of(t, slot, d1)) == AbsentValue::NoSequence,
{
}

fn scalar_accessor(ty: &String, slot: u8, default: &str) -> (r: Accessor)
    requires
        is_builtin_repr(ty@),
    ensures
        r@ == (AccessorModel::ReadScalar { repr: ty@, slot, default: default@ }),
{
    Accessor::ReadScalar { repr: ty.clone(), slot, default: String::from_str(default) }
}

fn enum_accessor(md: &String, raw: Accessor) -> (r: Accessor)
    ensures
        r@ == (AccessorModel::DecodeEnum { name: md@, raw: Box::new(raw@) }),
{
    Accessor::DecodeEnum { name: md.clone(), raw: Box::new(raw) }
}

fn union_accessor(md: &String, slot: u8) -> (r: Accessor)
    ensures
        r@ == (AccessorModel::ReadUnion { name: md@, discriminant: discriminant_of(md@), slot }),
{
    let mut discriminant = md.clone();
    discriminant.append("_type");
    Accessor::ReadUnion { name: md.clone(), discriminant, slot }
}

fn table_accessor(md: &String, slot: u8) -> (r: Accessor)
    ensures
        r@ == (AccessorModel::ReadTable { name: md@, slot }),
{
    Accessor::ReadTable { name: md.clone(), slot }
}

fn vector_accessor(ty: &FieldType, slot: u8) -> (r: Accessor)
    ensures
        r@ == (AccessorModel::ReadVector { element: base_text(ty@), slot }),
{
    Accessor::ReadVector { element: ty.base_type(), slot }
}

impl FieldType {
    /// The accessor plan for a field of this type stored at `slot`.
    /// Every scalar in the type must be one of the builtin ones that
    /// resolution produces.
    pub fn get_table_accessor(&self, slot: u8, default: &str) -> (r: Accessor)
        requires
            scalars_builtin(self@),
        ensures
            r@ == accessor_of(self@, slot, default@),
        decreases self,
    {
        match self {
            FieldType::Scalar(ty) => scalar_accessor(ty, slot, default),
            FieldType::Enum(md, ty) => enum_accessor(md, ty.get_table_accessor(slot, default)),
            FieldType::Union(md) => union_accessor(md, slot),
            FieldType::Table(md) => table_accessor(md, slot),
            FieldType::Vector(ty) => vector_accessor(ty, slot),
        }
    }
}

} // verus!
