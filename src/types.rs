//! The data model: object kinds, attributes, field types and field definitions.
use vstd::prelude::*;
use vstd::string::*;
use crate::text::{
    lemma_skip_ws_bounds, lemma_word_bounds, lemma_word_end_bounds, nth_word, starts_with,
    str_eq, word, word_bounds,
};

verus! {

/// The four kinds of object declaration.
#[derive(Debug, Clone, Copy, PartialEq, Eq, Structural)]
pub enum ObjectType {
    Table,
    Struct,
    Enum,
    Union,
}

/// An object-level attribute, e.g. `size: 32`.
#[derive(Debug, Clone, PartialEq, Eq)]
pub struct ObjAttribute {
    pub name: String,
    pub value: String,
}

/// A resolved field type.
#[derive(Debug, PartialEq, Eq)]
pub enum FieldType {
    Scalar(String),
    Enum(String, Box<FieldType>),
    Union(String),
    Table(String),
    Vector(Box<FieldType>),
}

/// The mathematical value of a `FieldType`, with text as character sequences.
pub ghost enum TypeModel {
    Scalar(Seq<char>),
    Enum(Seq<char>, Box<TypeModel>),
    Union(Seq<char>),
    Table(Seq<char>),
    Vector(Box<TypeModel>),
}

impl View for FieldType {
    type V = TypeModel;

    open spec fn view(&self) -> TypeModel
        decreases self,
    {
        match self {
            FieldType::Scalar(r) => TypeModel::Scalar(r@),
            FieldType::Enum(n, b) => TypeModel::Enum(n@, Box::new((**b).view())),
            FieldType::Union(n) => TypeModel::Union(n@),
            FieldType::Table(n) => TypeModel::Table(n@),
            FieldType::Vector(e) => TypeModel::Vector(Box::new((**e).view())),
        }
    }
}

/// A parsed field clause.
#[derive(Debug)]
pub struct FieldDef {
    pub name: String,
    pub ty: FieldType,
    pub slot: u8,
    pub default: String,
    pub comments: Vec<String>,
}

/// The mathematical value of a `FieldDef`.
pub ghost struct FieldModel {
    pub name: Seq<char>,
    pub ty: TypeModel,
    pub slot: u8,
    pub default: Seq<char>,
    pub comments: Seq<Seq<char>>,
}

impl View for FieldDef {
    type V = FieldModel;

    open spec fn view(&self) -> FieldModel {
        FieldModel {
            name: self.name@,
            ty: self.ty@,
            slot: self.slot,
            default: self.default@,
            comments: self.comments@.map_values(|c: String| c@),
        }
    }
}

/// The builtin scalar keywords and the representation each one stands for.
pub open spec fn scalar_repr(s: Seq<char>) -> Option<Seq<char>> {
    if s == "byte"@ {
        Some("i8"@)
    } else if s == "ubyte"@ {
        Some("u8"@)
    } else if s == "short"@ {
        Some("i16"@)
    } else if s == "ushort"@ {
        Some("u16"@)
    } else if s == "int"@ {
        Some("i32"@)
    } else if s == "uint"@ {
        Some("u32"@)
    } else if s == "long"@ {
        Some("i64"@)
    } else if s == "ulong"@ {
        Some("u64"@)
    } else if s == "float"@ {
        Some("f32"@)
    } else if s == "double"@ {
        Some("f64"@)
    } else if s == "bool"@ {
        Some("bool"@)
    } else if s == "string"@ {
        Some("&str"@)
    } else {
        None
    }
}

/// Whether `s` is written `[` inner `]`.
pub open spec fn is_bracketed(s: Seq<char>) -> bool {
    s.len() >= 2 && s[0] == '[' && s[s.len() - 1] == ']'
}

pub open spec fn has_prefix(s: Seq<char>, p: Seq<char>) -> bool {
    p.len() <= s.len() && s.subrange(0, p.len() as int) == p
}

/// Resolution of a textual type specification; the first matching rule wins:
/// a builtin scalar keyword, a bracketed vector, `union Name`,
/// `enum Name Base`, and otherwise a reference to a table type.
pub open spec fn resolve(s: Seq<char>) -> Option<TypeModel>
    decreases s.len(),
{
    if scalar_repr(s) is Some {
        Some(TypeModel::Scalar(scalar_repr(s)->0))
    } else if is_bracketed(s) {
        match resolve(s.subrange(1, s.len() - 1)) {
            Some(e) => Some(TypeModel::Vector(Box::new(e))),
            None => None,
        }
    } else if has_prefix(s, "union "@) {
        match word(s, 1) {
            Some(n) => Some(TypeModel::Union(n)),
            None => None,
        }
    } else if has_prefix(s, "enum "@) {
        match (word(s, 1), word(s, 2)) {
            // The base is a proper part of `s`; the test only bounds the recursion.
            (Some(n), Some(b)) => if b.len() < s.len() {
                match resolve(b) {
                    Some(bt) => Some(TypeModel::Enum(n, Box::new(bt))),
                    None => None,
                }
            } else {
                None
            },
            _ => None,
        }
    } else {
        Some(TypeModel::Table(s))
    }
}

pub open spec fn opt_type_view(r: Option<FieldType>) -> Option<TypeModel> {
    match r {
        Some(t) => Some(t@),
        None => None,
    }
}

pub(crate) fn scalar_of(s: &str) -> (r: Option<String>)
    ensures
        r matches Some(x) ==> scalar_repr(s@) == Some(x@),
        r is None ==> scalar_repr(s@) is None,
{
    if str_eq(s, "byte") {
        Some(String::from_str("i8"))
    } else if str_eq(s, "ubyte") {
        Some(String::from_str("u8"))
    } else if str_eq(s, "short") {
        Some(String::from_str("i16"))
    } else if str_eq(s, "ushort") {
        Some(String::from_str("u16"))
    } else if str_eq(s, "int") {
        Some(String::from_str("i32"))
    } else if str_eq(s, "uint") {
        Some(String::from_str("u32"))
    } else if str_eq(s, "long") {
        Some(String::from_str("i64"))
    } else if str_eq(s, "ulong") {
        Some(String::from_str("u64"))
    } else if str_eq(s, "float") {
        Some(String::from_str("f32"))
    } else if str_eq(s, "double") {
        Some(String::from_str("f64"))
    } else if str_eq(s, "bool") {
        Some(String::from_str("bool"))
    } else if str_eq(s, "string") {
        Some(String::from_str("&str"))
    } else {
        None
    }
}

/// Resolves the text of a `typeOf` value into a field type.
pub fn map_ty(other: String) -> (r: Option<FieldType>)
    ensures
        opt_type_view(r) == resolve(other@),
    decreases other@.len(),
{
    let s = other.as_str();
    if let Some(repr) = scalar_of(s) {
        return Some(FieldType::Scalar(repr));
    }
    let n = s.unicode_len();
    if n >= 2 && s.get_char(0) == '[' && s.get_char(n - 1) == ']' {
        let inner = String::from_str(s.substring_char(1, n - 1));
        return match map_ty(inner) {
            Some(e) => Some(FieldType::Vector(Box::new(e))),
            None => None,
        };
    }
    if starts_with(s, "union ") {
        return match nth_word(s, 1) {
            Some(name) => Some(FieldType::Union(name)),
            None => None,
        };
    }
    if starts_with(s, "enum ") {
        let name = nth_word(s, 1);
        let base = nth_word(s, 2);
        return match (name, base) {
            (Some(name), Some(base)) => {
                if base.unicode_len() < n {
                    match map_ty(base) {
                        Some(bt) => Some(FieldType::Enum(name, Box::new(bt))),
                        None => None,
                    }
                } else {
                    None
                }
            },
            _ => None,
        };
    }
    Some(FieldType::Table(other))
}

} // verus!

verus! {

/// Every builtin scalar keyword resolves to its paired representation.
pub proof fn lemma_builtin_scalars()
    ensures
        resolve("byte"@) == Some(TypeModel::Scalar("i8"@)),
        resolve("ubyte"@) == Some(TypeModel::Scalar("u8"@)),
        resolve("short"@) == Some(TypeModel::Scalar("i16"@)),
        resolve("ushort"@) == Some(TypeModel::Scalar("u16"@)),
        resolve("int"@) == Some(TypeModel::Scalar("i32"@)),
        resolve("uint"@) == Some(TypeModel::Scalar("u32"@)),
        resolve("long"@) == Some(TypeModel::Scalar("i64"@)),
        resolve("ulong"@) == Some(TypeModel::Scalar("u64"@)),
        resolve("float"@) == Some(TypeModel::Scalar("f32"@)),
        resolve("double"@) == Some(TypeModel::Scalar("f64"@)),
        resolve("bool"@) == Some(TypeModel::Scalar("bool"@)),
        resolve("string"@) == Some(TypeModel::Scalar("&str"@)),
{
    reveal_strlit("byte");
    reveal_strlit("ubyte");
    reveal_strlit("short");
    reveal_strlit("ushort");
    reveal_strlit("int");
    reveal_strlit("uint");
    reveal_strlit("long");
    reveal_strlit("ulong");
    reveal_strlit("float");
    reveal_strlit("double");
    reveal_strlit("bool");
    reveal_strlit("string");
    assert("short"@[0] != "ubyte"@[0]);
    assert("uint"@[0] != "byte"@[0]);
    assert("long"@[0] != "byte"@[0]);
    assert("long"@[0] != "uint"@[0]);
    assert("ulong"@[1] != "ubyte"@[1]);
    assert("ulong"@[0] != "short"@[0]);
    assert("float"@[0] != "ubyte"@[0]);
    assert("float"@[0] != "short"@[0]);
    assert("float"@[0] != "ulong"@[0]);
    assert("double"@[0] != "ushort"@[0]);
    assert("bool"@[1] != "byte"@[1]);
    assert("bool"@[0] != "uint"@[0]);
    assert("bool"@[0] != "long"@[0]);
    assert("string"@[0] != "ushort"@[0]);
    assert("string"@[0] != "double"@[0]);
}

/// `enum Name Base` resolves to an enum over the resolution of `Base`; when
/// the base does not resolve, or a word is missing, the whole type does not
/// resolve.
pub proof fn lemma_enum_type_resolution(s: Seq<char>)
    requires
        has_prefix(s, "enum "@),
    ensures
        resolve(s) == match (word(s, 1), word(s, 2)) {
            (Some(n), Some(b)) => match resolve(b) {
                Some(bt) => Some(TypeModel::Enum(n, Box::new(bt))),
                None => None,
            },
            _ => None,
        },
{
    reveal_strlit("enum ");
    reveal_strlit("byte");
    reveal_strlit("ubyte");
    reveal_strlit("short");
    reveal_strlit("ushort");
    reveal_strlit("int");
    reveal_strlit("uint");
    reveal_strlit("long");
    reveal_strlit("ulong");
    reveal_strlit("float");
    reveal_strlit("double");
    reveal_strlit("bool");
    reveal_strlit("string");
    assert(s.subrange(0, 5) == "enum "@);
    assert(s[0] == s.subrange(0, 5)[0]);
    assert(s[4] == s.subrange(0, 5)[4]);
    assert(scalar_repr(s) is None) by {
        assert(s.len() >= 5);
        if s.len() == 5 {
            assert(s[4] != "ubyte"@[4]);
            assert(s[4] != "short"@[4]);
            assert(s[4] != "ulong"@[4]);
            assert(s[4] != "float"@[4]);
        } else if s.len() == 6 {
            assert(s[4] != "ushort"@[4]);
            assert(s[4] != "double"@[4]);
            assert(s[4] != "string"@[4]);
        }
    }
    assert(!has_prefix(s, "union "@)) by {
        reveal_strlit("union ");
        if "union "@.len() <= s.len() && s.subrange(0, 6) == "union "@ {
            assert(s.subrange(0, 6)[0] == s[0]);
        }
    }
    lemma_word_bounds(s, 0);
    lemma_word_bounds(s, 1);
    lemma_word_bounds(s, 2);
    lemma_word_end_bounds(s, 1);
    lemma_skip_ws_bounds(s, word_bounds(s, 0).1);
    lemma_skip_ws_bounds(s, word_bounds(s, 1).1);
    assert(word_bounds(s, 0).1 >= 1);
    assert(word_bounds(s, 2).0 >= 1);
}

/// The twelve representations that the builtin scalar keywords stand for.
pub open spec fn is_builtin_repr(r: Seq<char>) -> bool {
    r == "i8"@ || r == "u8"@ || r == "i16"@ || r == "u16"@ || r == "i32"@ || r == "u32"@ || r
        == "i64"@ || r == "u64"@ || r == "f32"@ || r == "f64"@ || r == "bool"@ || r == "&str"@
}

/// Whether every scalar in `t`, at any depth, has a builtin representation.
pub open spec fn scalars_builtin(t: TypeModel) -> bool
    decreases t,
{
    match t {
        TypeModel::Scalar(r) => is_builtin_repr(r),
        TypeModel::Enum(_, b) => scalars_builtin(*b),
        TypeModel::Vector(e) => scalars_builtin(*e),
        TypeModel::Union(_) => true,
        TypeModel::Table(_) => true,
    }
}

/// A resolved type holds builtin scalars only.
pub proof fn lemma_resolve_builtin(s: Seq<char>)
    ensures
        resolve(s) matches Some(t) ==> scalars_builtin(t),
    decreases s.len(),
{
    if scalar_repr(s) is Some {
    } else if is_bracketed(s) {
        lemma_resolve_builtin(s.subrange(1, s.len() - 1));
    } else if has_prefix(s, "union "@) {
    } else if has_prefix(s, "enum "@) {
        if let (Some(_), Some(b)) = (word(s, 1), word(s, 2)) {
            if b.len() < s.len() {
                lemma_resolve_builtin(b);
            }
        }
    }
}

/// The type name an accessor hands out for a field of type `t`.
pub open spec fn base_text(t: TypeModel) -> Seq<char>
    decreases t,
{
    match t {
        TypeModel::Scalar(r) => r,
        TypeModel::Table(n) => n,
        TypeModel::Vector(e) => "Iter<'a,"@ + base_text(*e) + ">"@,
        TypeModel::Union(n) => n,
        TypeModel::Enum(n, _) => n,
    }
}

impl FieldType {
    /// The type name an accessor hands out for a field of this type.
    pub fn base_type(&self) -> (r: String)
        ensures
            r@ == base_text(self@),
        decreases self,
    {
        match self {
            FieldType::Scalar(ty) => ty.clone(),
            FieldType::Table(ty) => ty.clone(),
            FieldType::Vector(ty) => {
                let inner = ty.base_type();
                let mut r = String::from_str("Iter<'a,");
                r.append(inner.as_str());
                r.append(">");
                r
            },
            FieldType::Union(ty) => ty.clone(),
            FieldType::Enum(md, _) => md.clone(),
        }
    }
}

/// Attributes as pairs of name and value.
pub open spec fn attrs_text(attrs: Seq<ObjAttribute>) -> Seq<(Seq<char>, Seq<char>)> {
    attrs.map_values(|a: ObjAttribute| (a.name@, a.value@))
}

/// The value of the first attribute called `name`, if any.
pub open spec fn first_value(attrs: Seq<(Seq<char>, Seq<char>)>, name: Seq<char>) -> Option<
    Seq<char>,
>
    decreases attrs.len(),
{
    if attrs.len() == 0 {
        None
    } else if attrs[0].0 == name {
        Some(attrs[0].1)
    } else {
        first_value(attrs.drop_first(), name)
    }
}

/// The value of the first attribute called `name`, if any.
pub fn find_attribute(name: &str, attributes: &[ObjAttribute]) -> (r: Option<String>)
    ensures
        match r {
            Some(v) => first_value(attrs_text(attributes@), name@) == Some(v@),
            None => first_value(attrs_text(attributes@), name@) is None,
        },
{
    let ghost all = attrs_text(attributes@);
    assert(all.subrange(0, all.len() as int) == all);
    let mut i: usize = 0;
    while i < attributes.len()
        invariant
            i <= attributes@.len(),
            all == attrs_text(attributes@),
            first_value(all, name@) == first_value(all.subrange(i as int, all.len() as int), name@),
        decreases attributes@.len() - i,
    {
        let ghost rest = all.subrange(i as int, all.len() as int);
        assert(rest[0] == (attributes@[i as int].name@, attributes@[i as int].value@));
        if str_eq(attributes[i].name.as_str(), name) {
            return Some(attributes[i].value.clone());
        }
        assert(rest.drop_first() == all.subrange(i + 1, all.len() as int));
        i = i + 1;
    }
    None
}

} // verus!
