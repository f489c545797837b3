//! The pipeline: one declaration in, its output items and diagnostics out.
use vstd::prelude::*;
use vstd::string::*;
use crate::accessor::{Accessor, accessor_of};
use crate::enums::{EnumDecl, opt_text};
use crate::error::{Diagnostic, ErrModel, Severity, message_of};
use crate::object::{Body, BodyModel, DeclModel, Declaration, decl_result, fields_view, lemma_decl_builtin, parse_declaration};
use crate::token::Token;
use crate::types::{FieldDef, ObjectType, find_attribute, first_value, scalars_builtin};

verus! {

/// The accessor plan of one field.
#[derive(Debug, PartialEq, Eq)]
pub struct FieldAccessor {
    pub field: String,
    pub accessor: Accessor,
}

/// One generated item.
#[derive(Debug)]
pub enum OutputItem {
    /// A table or struct: its name, its declared byte width, and one
    /// accessor per field in declaration order.
    Object { kind: ObjectType, name: String, size: Option<String>, fields: Vec<FieldAccessor> },
    /// An enum's variant set, or a union's tag set; either decodes raw values.
    Enum(EnumDecl),
}

/// What compiling one declaration gives: the items, or none after an error,
/// and the diagnostics for the host.
#[derive(Debug)]
pub struct Output {
    pub items: Vec<OutputItem>,
    pub diagnostics: Vec<Diagnostic>,
}

/// The accessor plan of each field, in order.
pub fn field_accessors(fields: &Vec<FieldDef>) -> (r: Vec<FieldAccessor>)
    requires
        forall|i: int| 0 <= i < fields@.len() ==> scalars_builtin(#[trigger] fields@[i].ty@),
    ensures
        r@.len() == fields@.len(),
        forall|i: int|
            0 <= i < r@.len() ==> (#[trigger] r@[i]).field@ == fields@[i].name@
                && r@[i].accessor@ == accessor_of(
                fields@[i].ty@,
                fields@[i].slot,
                fields@[i].default@,
            ),
{
    let mut r: Vec<FieldAccessor> = Vec::new();
    let mut i: usize = 0;
    while i < fields.len()
        invariant
            i <= fields@.len(),
            r@.len() == i,
            forall|j: int| 0 <= j < fields@.len() ==> scalars_builtin(#[trigger] fields@[j].ty@),
            forall|j: int|
                0 <= j < i ==> (#[trigger] r@[j]).field@ == fields@[j].name@
                    && r@[j].accessor@ == accessor_of(
                    fields@[j].ty@,
                    fields@[j].slot,
                    fields@[j].default@,
                ),
        decreases fields@.len() - i,
    {
        let f = &fields[i];
        let accessor = f.ty.get_table_accessor(f.slot, f.default.as_str());
        r.push(FieldAccessor { field: f.name.clone(), accessor });
        i = i + 1;
    }
    r
}

/// Compiles one declaration. A failing declaration gives no items and one
/// error; otherwise one item and an "Unknown attribute" warning per dropped
/// attribute.
pub fn compile(tokens: &Vec<Token>) -> (r: Output)
    ensures
        match decl_result(tokens@) {
            Err(e) => r.items@.len() == 0 && r.diagnostics@.len() == 1
                && r.diagnostics@[0].severity == Severity::Error && r.diagnostics@[0].message@
                == message_of(e),
            Ok(d) => r.items@.len() == 1 && r.diagnostics@.len() == d.attrs.unknown.len() && (
            forall|i: int|
                0 <= i < r.diagnostics@.len() ==> (#[trigger] r.diagnostics@[i]).severity
                    == Severity::Warning && r.diagnostics@[i].message@ == "Unknown attribute"@) && match d.body {
                BodyModel::Fields(fs) => r.items@[0] matches OutputItem::Object {
                    kind,
                    name,
                    size,
                    fields,
                } && kind == d.kind && name@ == d.name && opt_text(size) == first_value(
                    d.attrs.attrs,
                    "size"@,
                ) && fields@.len() == fs.len() && forall|i: int|
                    0 <= i < fs.len() ==> (#[trigger] fields@[i]).field@ == fs[i].name
                        && fields@[i].accessor@ == accessor_of(fs[i].ty, fs[i].slot, fs[i].default),
                BodyModel::Enum(m) => r.items@[0] matches OutputItem::Enum(e) && e@ == m,
            },
        },
{
    let mut items: Vec<OutputItem> = Vec::new();
    let mut diagnostics: Vec<Diagnostic> = Vec::new();
    let decl = match parse_declaration(tokens) {
        Ok(d) => d,
        Err(e) => {
            diagnostics.push(Diagnostic { severity: Severity::Error, message: e.message() });
            return Output { items, diagnostics };
        },
    };
    let mut i: usize = 0;
    while i < decl.unknown_attributes.len()
        invariant
            i <= decl.unknown_attributes@.len(),
            diagnostics@.len() == i,
            forall|j: int|
                0 <= j < i ==> (#[trigger] diagnostics@[j]).severity == Severity::Warning
                    && diagnostics@[j].message@ == "Unknown attribute"@,
        decreases decl.unknown_attributes@.len() - i,
    {
        let message = String::from_str("Unknown attribute");
        diagnostics.push(Diagnostic { severity: Severity::Warning, message });
        i = i + 1;
    }
    let ghost dm = decl@;
    let Declaration { kind, name, attributes, unknown_attributes: _, body } = decl;
    match body {
        Body::Fields(fs) => {
            let size = find_attribute("size", attributes.as_slice());
            proof {
                lemma_decl_builtin(tokens@);
                assert(decl_result(tokens@) == Ok::<DeclModel, ErrModel>(dm));
                assert(dm.body == BodyModel::Fields(fields_view(fs@)));
                assert forall|j: int| 0 <= j < fs@.len() implies scalars_builtin(
                    #[trigger] fs@[j].ty@,
                ) by {
                    assert(fields_view(fs@)[j] == fs@[j]@);
                    assert(scalars_builtin(fields_view(fs@)[j].ty));
                }
            }
            let fields = field_accessors(&fs);
            assert forall|j: int| 0 <= j < fs@.len() implies fields_view(fs@)[j] == fs@[j]@ by {}
            items.push(OutputItem::Object { kind, name, size, fields });
        },
        Body::Enum(e) => {
            items.push(OutputItem::Enum(e));
        },
    }
    Output { items, diagnostics }
}

} // verus!
