//! Diagnostics: the errors that abort one declaration, and warnings.
use vstd::prelude::*;
use vstd::string::*;
use crate::types::ObjectType;

verus! {

/// The keys a field clause may be required to give, in canonical order.
#[derive(Debug, Clone, Copy, PartialEq, Eq, Structural)]
pub enum AttrKey {
    Default,
    Name,
    Slot,
    TypeOf,
}

pub open spec fn key_name(k: AttrKey) -> Seq<char> {
    match k {
        AttrKey::Default => "default"@,
        AttrKey::Name => "name"@,
        AttrKey::Slot => "slot"@,
        AttrKey::TypeOf => "typeOf"@,
    }
}

/// The key names joined by `", "`.
pub open spec fn comma_join(ks: Seq<AttrKey>) -> Seq<char>
    decreases ks.len(),
{
    if ks.len() == 0 {
        Seq::empty()
    } else if ks.len() == 1 {
        key_name(ks[0])
    } else {
        comma_join(ks.drop_last()) + ", "@ + key_name(ks.last())
    }
}

/// The key names as an English list: `a`, `a and b`, `a, b, and c`.
pub open spec fn list_text(ks: Seq<AttrKey>) -> Seq<char> {
    if ks.len() <= 1 {
        comma_join(ks)
    } else if ks.len() == 2 {
        key_name(ks[0]) + " and "@ + key_name(ks[1])
    } else {
        comma_join(ks.drop_last()) + ", and "@ + key_name(ks.last())
    }
}

impl AttrKey {
    /// The key as written in a field clause.
    pub fn name(&self) -> (r: &'static str)
        ensures
            r@ == key_name(*self),
    {
        match self {
            AttrKey::Default => "default",
            AttrKey::Name => "name",
            AttrKey::Slot => "slot",
            AttrKey::TypeOf => "typeOf",
        }
    }
}

fn comma_join_prefix(ks: &Vec<AttrKey>, n: usize) -> (r: String)
    requires
        n <= ks@.len(),
    ensures
        r@ == comma_join(ks@.subrange(0, n as int)),
{
    let mut r = String::new();
    let mut i: usize = 0;
    while i < n
        invariant
            i <= n <= ks@.len(),
            r@ == comma_join(ks@.subrange(0, i as int)),
        decreases n - i,
    {
        let ghost prev = ks@.subrange(0, i as int);
        let ghost next = ks@.subrange(0, i + 1);
        assert(next.drop_last() == prev);
        if i > 0 {
            r.append(", ");
        } else {
            assert(prev.len() == 0);
            assert(r@ == Seq::<char>::empty());
            assert(r@ + key_name(ks@[0]) == key_name(ks@[0]));
        }
        r.append(ks[i].name());
        i = i + 1;
    }
    r
}

/// The English list of the given keys.
pub fn join_keys(ks: &Vec<AttrKey>) -> (r: String)
    ensures
        r@ == list_text(ks@),
{
    let n = ks.len();
    assert(ks@.subrange(0, n as int) == ks@);
    if n <= 1 {
        comma_join_prefix(ks, n)
    } else if n == 2 {
        let mut r = String::from_str(ks[0].name());
        r.append(" and ");
        r.append(ks[1].name());
        r
    } else {
        let mut r = comma_join_prefix(ks, n - 1);
        assert(ks@.subrange(0, n - 1) == ks@.drop_last());
        r.append(", and ");
        r.append(ks[n - 1].name());
        r
    }
}

/// Why the compilation of one declaration failed.
#[derive(Debug, PartialEq, Eq)]
pub enum CompileError {
    /// The declaration does not start with `Table`, `Struct`, `Enum` or `Union`.
    UnrecognizedKind,
    /// The kind is not followed by `=>`.
    MissingSeparator,
    /// No name follows the `=>` of a declaration of this kind.
    MissingName(ObjectType),
    /// No delimited list follows the name and attributes.
    MissingFieldList,
    /// A field list or field clause is not shaped as the grammar asks.
    InvalidFieldDef,
    /// A field list entry, or an attribute key, is not where the grammar asks for it.
    ExpectedField,
    /// An attribute key is not followed by `:`.
    ExpectedColon,
    /// The value of the `size` attribute is not an integer literal.
    SizeNotInteger,
    /// The value of a `slot` key is not an integer literal in `0..=255`.
    SlotNotInteger,
    /// A field clause gives a key it does not know.
    UnexpectedAttribute(String),
    /// A field clause lacks required keys; all of them, in canonical order.
    MissingRequiredAttributes(Vec<AttrKey>),
    /// The `typeOf` text, held here, does not resolve to a type; reported as
    /// an invalid field definition.
    UnresolvedType(String),
    /// An enum's base type is not an integer type.
    InvalidEnumBase(String),
    /// The value of the named enum item is not an integer its base type holds,
    /// or the named union member is past the last `u8` tag.
    InvalidEnumValue(String),
    /// An enum declaration lacks `as` and its base type.
    MissingEnumBase,
}

/// The mathematical value of a `CompileError`.
pub ghost enum ErrModel {
    UnrecognizedKind,
    MissingSeparator,
    MissingName(ObjectType),
    MissingFieldList,
    InvalidFieldDef,
    ExpectedField,
    ExpectedColon,
    SizeNotInteger,
    SlotNotInteger,
    UnexpectedAttribute(Seq<char>),
    MissingRequiredAttributes(Seq<AttrKey>),
    UnresolvedType(Seq<char>),
    InvalidEnumBase(Seq<char>),
    InvalidEnumValue(Seq<char>),
    MissingEnumBase,
}

/// The text reported for each error.
pub open spec fn message_of(e: ErrModel) -> Seq<char> {
    match e {
        ErrModel::UnrecognizedKind => "Expected one of 'Table', 'Struct', 'Enum' or 'Union'"@,
        ErrModel::MissingSeparator => "Expected '=>'"@,
        ErrModel::MissingName(k) => "Expected a name for the "@ + kind_name(k),
        ErrModel::MissingFieldList => "Expected a list of fields"@,
        ErrModel::InvalidFieldDef => "Invalid field definition"@,
        ErrModel::ExpectedField => "Expected field"@,
        ErrModel::ExpectedColon => "Expected ':'"@,
        ErrModel::SizeNotInteger => "Size must be an integer"@,
        ErrModel::SlotNotInteger => "Slot must be an integer"@,
        ErrModel::UnexpectedAttribute(k) => "Unknown attribute: "@ + k,
        ErrModel::MissingRequiredAttributes(ks) => "missing "@ + list_text(ks),
        ErrModel::UnresolvedType(_) => "Invalid field definition"@,
        ErrModel::InvalidEnumBase(t) => "Enum base type must be an integer type: "@ + t,
        ErrModel::InvalidEnumValue(n) => "Invalid value for enum item "@ + n,
        ErrModel::MissingEnumBase => "Expected 'as' and a base type"@,
    }
}

impl View for CompileError {
    type V = ErrModel;

    open spec fn view(&self) -> ErrModel {
        match self {
            CompileError::UnrecognizedKind => ErrModel::UnrecognizedKind,
            CompileError::MissingSeparator => ErrModel::MissingSeparator,
            CompileError::MissingName(k) => ErrModel::MissingName(*k),
            CompileError::MissingFieldList => ErrModel::MissingFieldList,
            CompileError::InvalidFieldDef => ErrModel::InvalidFieldDef,
            CompileError::ExpectedField => ErrModel::ExpectedField,
            CompileError::ExpectedColon => ErrModel::ExpectedColon,
            CompileError::SizeNotInteger => ErrModel::SizeNotInteger,
            CompileError::SlotNotInteger => ErrModel::SlotNotInteger,
            CompileError::UnexpectedAttribute(k) => ErrModel::UnexpectedAttribute(k@),
            CompileError::MissingRequiredAttributes(ks) => ErrModel::MissingRequiredAttributes(
                ks@,
            ),
            CompileError::UnresolvedType(t) => ErrModel::UnresolvedType(t@),
            CompileError::InvalidEnumBase(t) => ErrModel::InvalidEnumBase(t@),
            CompileError::InvalidEnumValue(n) => ErrModel::InvalidEnumValue(n@),
            CompileError::MissingEnumBase => ErrModel::MissingEnumBase,
        }
    }
}

pub open spec fn kind_name(k: ObjectType) -> Seq<char> {
    match k {
        ObjectType::Table => "Table"@,
        ObjectType::Struct => "Struct"@,
        ObjectType::Enum => "Enum"@,
        ObjectType::Union => "Union"@,
    }
}

impl ObjectType {
    /// The kind as written in a declaration.
    pub fn name(&self) -> (r: &'static str)
        ensures
            r@ == kind_name(*self),
    {
        match self {
            ObjectType::Table => "Table",
            ObjectType::Struct => "Struct",
            ObjectType::Enum => "Enum",
            ObjectType::Union => "Union",
        }
    }
}

pub(crate) fn text_after(prefix: &str, tail: &str) -> (r: String)
    ensures
        r@ == prefix@ + tail@,
{
    let mut r = String::from_str(prefix);
    r.append(tail);
    r
}

impl CompileError {
    /// The message reported for this error.
    pub fn message(&self) -> (r: String)
        ensures
            r@ == message_of(self@),
    {
        match self {
            CompileError::UnrecognizedKind => String::from_str(
                "Expected one of 'Table', 'Struct', 'Enum' or 'Union'",
            ),
            CompileError::MissingSeparator => String::from_str("Expected '=>'"),
            CompileError::MissingName(k) => text_after("Expected a name for the ", k.name()),
            CompileError::MissingFieldList => String::from_str("Expected a list of fields"),
            CompileError::InvalidFieldDef => String::from_str("Invalid field definition"),
            CompileError::ExpectedField => String::from_str("Expected field"),
            CompileError::ExpectedColon => String::from_str("Expected ':'"),
            CompileError::SizeNotInteger => String::from_str("Size must be an integer"),
            CompileError::SlotNotInteger => String::from_str("Slot must be an integer"),
            CompileError::UnexpectedAttribute(k) => text_after("Unknown attribute: ", k.as_str()),
            CompileError::MissingRequiredAttributes(ks) => text_after(
                "missing ",
                join_keys(ks).as_str(),
            ),
            CompileError::UnresolvedType(_) => String::from_str("Invalid field definition"),
            CompileError::InvalidEnumBase(t) => text_after(
                "Enum base type must be an integer type: ",
                t.as_str(),
            ),
            CompileError::InvalidEnumValue(n) => text_after(
                "Invalid value for enum item ",
                n.as_str(),
            ),
            CompileError::MissingEnumBase => String::from_str("Expected 'as' and a base type"),
        }
    }
}

/// How serious a diagnostic is: an error aborts its declaration, a warning does not.
#[derive(Debug, Clone, Copy, PartialEq, Eq, Structural)]
pub enum Severity {
    Error,
    Warning,
}

/// A message for the host, with its severity.
#[derive(Debug, PartialEq, Eq)]
pub struct Diagnostic {
    pub severity: Severity,
    pub message: String,
}

} // verus!
