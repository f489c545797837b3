//! Object declarations: `Kind => Name [(attributes)] [fields]`.
use vstd::prelude::*;
use vstd::string::*;
use crate::enums::{
    EnumDecl, EnumItem, EnumModel, build_simple_enum, build_union, enum_result, items_text,
    union_result,
};
use crate::error::{CompileError, ErrModel};
use crate::fields::{field_result, lemma_field_builtin, parse_field_names};
use crate::text::str_eq;
use crate::token::{Delim, LitKind, Token};
use crate::types::{FieldDef, FieldModel, ObjAttribute, ObjectType, attrs_text, scalars_builtin};

verus! {

/// The attributes of an object: the recognized ones, and the keys that were
/// not recognized and dropped.
pub ghost struct AttrsModel {
    pub attrs: Seq<(Seq<char>, Seq<char>)>,
    pub unknown: Seq<Seq<char>>,
}

/// The position after an entry of `width` tokens at `i`, and its optional comma.
pub open spec fn after_entry(ts: Seq<Token>, i: int, width: int) -> int {
    if i + width < ts.len() && ts[i + width] is Comma {
        i + width + 1
    } else {
        i + width
    }
}

/// Scans `key: value` entries from position `i` on. `size` takes an integer
/// literal; any other key is recorded as unknown and dropped.
pub open spec fn scan_attrs(ts: Seq<Token>, i: int, acc: AttrsModel) -> Result<AttrsModel, ErrModel>
    decreases ts.len() - i,
{
    if i < 0 || i >= ts.len() {
        Ok(acc)
    } else if i + 3 > ts.len() {
        Err(ErrModel::InvalidFieldDef)
    } else {
        match ts[i] {
            Token::Ident(k) => if !(ts[i + 1] is Colon) {
                Err(ErrModel::ExpectedColon)
            } else {
                let next = after_entry(ts, i, 3);
                if k@ == "size"@ {
                    match ts[i + 2] {
                        Token::Literal(LitKind::Int, v) => scan_attrs(
                            ts,
                            next,
                            AttrsModel { attrs: acc.attrs.push((k@, v@)), ..acc },
                        ),
                        _ => Err(ErrModel::SizeNotInteger),
                    }
                } else {
                    scan_attrs(ts, next, AttrsModel { unknown: acc.unknown.push(k@), ..acc })
                }
            },
            _ => Err(ErrModel::ExpectedField),
        }
    }
}

pub open spec fn no_attrs() -> AttrsModel {
    AttrsModel { attrs: Seq::empty(), unknown: Seq::empty() }
}

/// Scans `field => { ... }` clauses from position `i` on, each optionally
/// followed by a comma.
pub open spec fn scan_fields(ts: Seq<Token>, i: int, kind: ObjectType, acc: Seq<FieldModel>) -> Result<
    Seq<FieldModel>,
    ErrModel,
>
    decreases ts.len() - i,
{
    if i < 0 || i >= ts.len() {
        Ok(acc)
    } else if i + 3 > ts.len() {
        Err(ErrModel::InvalidFieldDef)
    } else if !(ts[i] matches Token::Ident(f) && f@ == "field"@) {
        Err(ErrModel::ExpectedField)
    } else if !(ts[i + 1] is FatArrow) {
        Err(ErrModel::MissingSeparator)
    } else {
        match ts[i + 2] {
            Token::Group(_, inner) => match field_result(inner@, kind) {
                Ok(f) => scan_fields(ts, after_entry(ts, i, 3), kind, acc.push(f)),
                Err(e) => Err(e),
            },
            _ => Err(ErrModel::InvalidFieldDef),
        }
    }
}


} // verus!

verus! {

fn after_entry_exec(ts: &Vec<Token>, i: usize, width: usize) -> (r: usize)
    requires
        i + width <= ts@.len(),
    ensures
        r == after_entry(ts@, i as int, width as int),
        r <= ts@.len(),
{
    let n = ts.len();
    let end = i + width;
    if end < n && matches!(ts[end], Token::Comma) {
        end + 1
    } else {
        end
    }
}

/// Parses the interior of an object's parenthesized attribute group.
pub fn get_obj_attributes(ts: &Vec<Token>) -> (r: Result<(Vec<ObjAttribute>, Vec<String>), CompileError>)
    ensures
        match scan_attrs(ts@, 0, no_attrs()) {
            Ok(m) => r matches Ok(p) && attrs_text(p.0@) == m.attrs
                && p.1@.map_values(|s: String| s@) == m.unknown,
            Err(e) => r matches Err(x) && x@ == e,
        },
{
    let mut attrs: Vec<ObjAttribute> = Vec::new();
    let mut unknown: Vec<String> = Vec::new();
    let n = ts.len();
    let mut i: usize = 0;
    assert(attrs_text(attrs@) =~= no_attrs().attrs);
    assert(unknown@.map_values(|s: String| s@) =~= no_attrs().unknown);
    while i < n
        invariant
            n == ts@.len(),
            i <= n,
            scan_attrs(ts@, 0, no_attrs()) == scan_attrs(
                ts@,
                i as int,
                AttrsModel {
                    attrs: attrs_text(attrs@),
                    unknown: unknown@.map_values(|s: String| s@),
                },
            ),
        decreases n - i,
    {
        if n - i < 3 {
            return Err(CompileError::InvalidFieldDef);
        }
        let key = match &ts[i] {
            Token::Ident(k) => k,
            _ => {
                return Err(CompileError::ExpectedField);
            },
        };
        if !matches!(ts[i + 1], Token::Colon) {
            return Err(CompileError::ExpectedColon);
        }
        let next = after_entry_exec(ts, i, 3);
        if str_eq(key.as_str(), "size") {
            match &ts[i + 2] {
                Token::Literal(LitKind::Int, v) => {
                    let ghost before = attrs@;
                    attrs.push(ObjAttribute { name: key.clone(), value: v.clone() });
                    assert(attrs_text(attrs@) =~= attrs_text(before).push((key@, v@)));
                },
                _ => {
                    return Err(CompileError::SizeNotInteger);
                },
            }
        } else {
            let ghost before = unknown@;
            unknown.push(key.clone());
            assert(unknown@.map_values(|s: String| s@) =~= before.map_values(|s: String| s@).push(
                key@,
            ));
        }
        i = next;
    }
    Ok((attrs, unknown))
}

pub open spec fn fields_view(fs: Seq<FieldDef>) -> Seq<FieldModel> {
    fs.map_values(|f: FieldDef| f@)
}

/// Parses the interior of an object's field list.
pub fn get_obj_fields(ts: &Vec<Token>, objty: ObjectType) -> (r: Result<Vec<FieldDef>, CompileError>)
    ensures
        match scan_fields(ts@, 0, objty, Seq::empty()) {
            Ok(m) => r matches Ok(fs) && fields_view(fs@) == m,
            Err(e) => r matches Err(x) && x@ == e,
        },
{
    let mut fields: Vec<FieldDef> = Vec::new();
    let n = ts.len();
    let mut i: usize = 0;
    assert(fields_view(fields@) =~= Seq::<FieldModel>::empty());
    while i < n
        invariant
            n == ts@.len(),
            i <= n,
            scan_fields(ts@, 0, objty, Seq::empty()) == scan_fields(
                ts@,
                i as int,
                objty,
                fields_view(fields@),
            ),
        decreases n - i,
    {
        if n - i < 3 {
            return Err(CompileError::InvalidFieldDef);
        }
        let is_field = match &ts[i] {
            Token::Ident(f) => str_eq(f.as_str(), "field"),
            _ => false,
        };
        if !is_field {
            return Err(CompileError::ExpectedField);
        }
        if !matches!(ts[i + 1], Token::FatArrow) {
            return Err(CompileError::MissingSeparator);
        }
        let inner = match &ts[i + 2] {
            Token::Group(_, inner) => inner,
            _ => {
                return Err(CompileError::InvalidFieldDef);
            },
        };
        let r = parse_field_names(inner, objty);
        match r {
            Ok(f) => {
                let ghost before = fields@;
                let ghost fm = f@;
                fields.push(f);
                assert(fields_view(fields@) =~= fields_view(before).push(fm));
            },
            Err(e) => {
                return Err(e);
            },
        }
        i = after_entry_exec(ts, i, 3);
    }
    Ok(fields)
}

} // verus!

verus! {

/// Scans `Name = IntLiteral` entries of an enum from position `i` on.
pub open spec fn scan_items(ts: Seq<Token>, i: int, acc: Seq<(Seq<char>, Seq<char>)>) -> Result<
    Seq<(Seq<char>, Seq<char>)>,
    ErrModel,
>
    decreases ts.len() - i,
{
    if i < 0 || i >= ts.len() {
        Ok(acc)
    } else if i + 3 > ts.len() || !(ts[i + 1] is Eq) {
        Err(ErrModel::InvalidFieldDef)
    } else {
        match (ts[i], ts[i + 2]) {
            (Token::Ident(n), Token::Literal(LitKind::Int, v)) => scan_items(
                ts,
                after_entry(ts, i, 3),
                acc.push((n@, v@)),
            ),
            _ => Err(ErrModel::InvalidFieldDef),
        }
    }
}

/// Parses the interior of an enum's item list.
pub fn get_enum_items(ts: &Vec<Token>) -> (r: Result<Vec<EnumItem>, CompileError>)
    ensures
        match scan_items(ts@, 0, Seq::empty()) {
            Ok(m) => r matches Ok(items) && items_text(items@) == m,
            Err(e) => r matches Err(x) && x@ == e,
        },
{
    let mut items: Vec<EnumItem> = Vec::new();
    let n = ts.len();
    let mut i: usize = 0;
    assert(items_text(items@) =~= Seq::<(Seq<char>, Seq<char>)>::empty());
    while i < n
        invariant
            n == ts@.len(),
            i <= n,
            scan_items(ts@, 0, Seq::empty()) == scan_items(ts@, i as int, items_text(items@)),
        decreases n - i,
    {
        if n - i < 3 || !matches!(ts[i + 1], Token::Eq) {
            return Err(CompileError::InvalidFieldDef);
        }
        match (&ts[i], &ts[i + 2]) {
            (Token::Ident(name), Token::Literal(LitKind::Int, v)) => {
                let ghost before = items@;
                items.push(EnumItem { name: name.clone(), value: v.clone() });
                assert(items_text(items@) =~= items_text(before).push((name@, v@)));
            },
            _ => {
                return Err(CompileError::InvalidFieldDef);
            },
        }
        i = after_entry_exec(ts, i, 3);
    }
    Ok(items)
}

/// Scans the member tables of a union from position `i` on, each optionally
/// followed by a comma.
pub open spec fn scan_members(ts: Seq<Token>, i: int, acc: Seq<Seq<char>>) -> Result<
    Seq<Seq<char>>,
    ErrModel,
>
    decreases ts.len() - i,
{
    if i < 0 || i >= ts.len() {
        Ok(acc)
    } else {
        match ts[i] {
            Token::Ident(n) => scan_members(ts, after_entry(ts, i, 1), acc.push(n@)),
            _ => Err(ErrModel::InvalidFieldDef),
        }
    }
}

/// Parses the interior of a union's member list.
pub fn get_union_members(ts: &Vec<Token>) -> (r: Result<Vec<String>, CompileError>)
    ensures
        match scan_members(ts@, 0, Seq::empty()) {
            Ok(m) => r matches Ok(ms) && ms@.map_values(|s: String| s@) == m,
            Err(e) => r matches Err(x) && x@ == e,
        },
{
    let mut ms: Vec<String> = Vec::new();
    let n = ts.len();
    let mut i: usize = 0;
    assert(ms@.map_values(|s: String| s@) =~= Seq::<Seq<char>>::empty());
    while i < n
        invariant
            n == ts@.len(),
            i <= n,
            scan_members(ts@, 0, Seq::empty()) == scan_members(
                ts@,
                i as int,
                ms@.map_values(|s: String| s@),
            ),
        decreases n - i,
    {
        match &ts[i] {
            Token::Ident(m) => {
                let ghost before = ms@;
                ms.push(m.clone());
                assert(ms@.map_values(|s: String| s@) =~= before.map_values(|s: String| s@).push(
                    m@,
                ));
            },
            _ => {
                return Err(CompileError::InvalidFieldDef);
            },
        }
        i = after_entry_exec(ts, i, 1);
    }
    Ok(ms)
}

/// What follows the name and attributes of a declaration.
#[derive(Debug)]
pub enum Body {
    Fields(Vec<FieldDef>),
    Enum(EnumDecl),
}

/// A parsed object declaration.
#[derive(Debug)]
pub struct Declaration {
    pub kind: ObjectType,
    pub name: String,
    pub attributes: Vec<ObjAttribute>,
    /// Attribute keys that were not recognized and dropped.
    pub unknown_attributes: Vec<String>,
    pub body: Body,
}

pub ghost enum BodyModel {
    Fields(Seq<FieldModel>),
    Enum(EnumModel),
}

pub ghost struct DeclModel {
    pub kind: ObjectType,
    pub name: Seq<char>,
    pub attrs: AttrsModel,
    pub body: BodyModel,
}

impl View for Declaration {
    type V = DeclModel;

    open spec fn view(&self) -> DeclModel {
        DeclModel {
            kind: self.kind,
            name: self.name@,
            attrs: AttrsModel {
                attrs: attrs_text(self.attributes@),
                unknown: self.unknown_attributes@.map_values(|s: String| s@),
            },
            body: match self.body {
                Body::Fields(fs) => BodyModel::Fields(fields_view(fs@)),
                Body::Enum(d) => BodyModel::Enum(d@),
            },
        }
    }
}

pub open spec fn kind_of(t: Token) -> Option<ObjectType> {
    match t {
        Token::Ident(s) => if s@ == "Table"@ {
            Some(ObjectType::Table)
        } else if s@ == "Struct"@ {
            Some(ObjectType::Struct)
        } else if s@ == "Enum"@ {
            Some(ObjectType::Enum)
        } else if s@ == "Union"@ {
            Some(ObjectType::Union)
        } else {
            None
        },
        _ => None,
    }
}

/// The body of a declaration of `kind` called `name`, whose delimited list
/// stands at position `p`.
pub open spec fn body_result(ts: Seq<Token>, p: int, kind: ObjectType, name: Seq<char>) -> Result<
    BodyModel,
    ErrModel,
> {
    if p < 0 || p >= ts.len() {
        Err(ErrModel::MissingFieldList)
    } else {
        match ts[p] {
            Token::Group(d, inner) => if d == Delim::Paren {
                Err(ErrModel::MissingFieldList)
            } else if kind == ObjectType::Union {
                match scan_members(inner@, 0, Seq::empty()) {
                    Err(e) => Err(e),
                    Ok(ms) => match union_result(name, ms) {
                        Ok(m) => Ok(BodyModel::Enum(m)),
                        Err(e) => Err(e),
                    },
                }
            } else if kind == ObjectType::Enum {
                match scan_items(inner@, 0, Seq::empty()) {
                    Err(e) => Err(e),
                    Ok(items) => if p + 2 < ts.len() && (ts[p + 1] matches Token::Ident(a) && a@
                        == "as"@) {
                        match ts[p + 2] {
                            Token::Ident(base) => match enum_result(name, base@, items) {
                                Ok(m) => Ok(BodyModel::Enum(m)),
                                Err(e) => Err(e),
                            },
                            _ => Err(ErrModel::MissingEnumBase),
                        }
                    } else {
                        Err(ErrModel::MissingEnumBase)
                    },
                }
            } else {
                match scan_fields(inner@, 0, kind, Seq::empty()) {
                    Ok(fs) => Ok(BodyModel::Fields(fs)),
                    Err(e) => Err(e),
                }
            },
            _ => Err(ErrModel::MissingFieldList),
        }
    }
}

/// The outcome of parsing the declaration `ts`.
pub open spec fn decl_result(ts: Seq<Token>) -> Result<DeclModel, ErrModel> {
    let kind = if ts.len() > 0 {
        kind_of(ts[0])
    } else {
        None
    };
    match kind {
        None => Err(ErrModel::UnrecognizedKind),
        Some(kind) => if ts.len() < 2 || !(ts[1] is FatArrow) {
            Err(ErrModel::MissingSeparator)
        } else {
            match (if ts.len() > 2 { ts[2] } else { Token::Comma }) {
                Token::Ident(name) => {
                    let has_attrs = ts.len() > 3 && (ts[3] matches Token::Group(d, _) && d
                        == Delim::Paren);
                    let attrs = if has_attrs {
                        match ts[3] {
                            Token::Group(_, inner) => scan_attrs(inner@, 0, no_attrs()),
                            _ => Ok(no_attrs()),
                        }
                    } else {
                        Ok(no_attrs())
                    };
                    match attrs {
                        Err(e) => Err(e),
                        Ok(am) => match body_result(
                            ts,
                            if has_attrs {
                                4
                            } else {
                                3
                            },
                            kind,
                            name@,
                        ) {
                            Ok(b) => Ok(DeclModel { kind, name: name@, attrs: am, body: b }),
                            Err(e) => Err(e),
                        },
                    }
                },
                _ => Err(ErrModel::MissingName(kind)),
            }
        },
    }
}

pub open spec fn decl_view(r: Result<Declaration, CompileError>) -> Result<DeclModel, ErrModel> {
    match r {
        Ok(d) => Ok(d@),
        Err(e) => Err(e@),
    }
}

/// The object kind named by `t`.
pub fn object_type(t: &Token) -> (r: Option<ObjectType>)
    ensures
        r == kind_of(*t),
{
    match t {
        Token::Ident(s) => {
            let s = s.as_str();
            if str_eq(s, "Table") {
                Some(ObjectType::Table)
            } else if str_eq(s, "Struct") {
                Some(ObjectType::Struct)
            } else if str_eq(s, "Enum") {
                Some(ObjectType::Enum)
            } else if str_eq(s, "Union") {
                Some(ObjectType::Union)
            } else {
                None
            }
        },
        _ => None,
    }
}

fn parse_body(ts: &Vec<Token>, p: usize, kind: ObjectType, name: &String) -> (r: Result<
    Body,
    CompileError,
>)
    ensures
        match body_result(ts@, p as int, kind, name@) {
            Ok(b) => r matches Ok(x) && b == match x {
                Body::Fields(fs) => BodyModel::Fields(fields_view(fs@)),
                Body::Enum(d) => BodyModel::Enum(d@),
            },
            Err(e) => r matches Err(x) && x@ == e,
        },
{
    if p >= ts.len() {
        return Err(CompileError::MissingFieldList);
    }
    let (d, inner) = match &ts[p] {
        Token::Group(d, inner) => (d, inner),
        _ => {
            return Err(CompileError::MissingFieldList);
        },
    };
    if *d == Delim::Paren {
        return Err(CompileError::MissingFieldList);
    }
    if kind == ObjectType::Union {
        return match get_union_members(inner) {
            Ok(ms) => match build_union(name.as_str(), &ms) {
                Ok(decl) => Ok(Body::Enum(decl)),
                Err(e) => Err(e),
            },
            Err(e) => Err(e),
        };
    }
    if kind == ObjectType::Enum {
        let items = match get_enum_items(inner) {
            Ok(items) => items,
            Err(e) => {
                return Err(e);
            },
        };
        let n = ts.len();
        if n - p > 2 {
            let is_as = match &ts[p + 1] {
                Token::Ident(a) => str_eq(a.as_str(), "as"),
                _ => false,
            };
            if is_as {
                return match &ts[p + 2] {
                    Token::Ident(base) => match build_simple_enum(
                        name.as_str(),
                        base.as_str(),
                        items.as_slice(),
                    ) {
                        Ok(decl) => Ok(Body::Enum(decl)),
                        Err(e) => Err(e),
                    },
                    _ => Err(CompileError::MissingEnumBase),
                };
            }
        }
        Err(CompileError::MissingEnumBase)
    } else {
        match get_obj_fields(inner, kind) {
            Ok(fs) => Ok(Body::Fields(fs)),
            Err(e) => Err(e),
        }
    }
}

/// Parses one object declaration: `Kind => Name [(attributes)] [fields]`.
pub fn parse_declaration(ts: &Vec<Token>) -> (r: Result<Declaration, CompileError>)
    ensures
        decl_view(r) == decl_result(ts@),
{
    let n = ts.len();
    if n == 0 {
        return Err(CompileError::UnrecognizedKind);
    }
    let kind = match object_type(&ts[0]) {
        Some(k) => k,
        None => {
            return Err(CompileError::UnrecognizedKind);
        },
    };
    if n < 2 || !matches!(ts[1], Token::FatArrow) {
        return Err(CompileError::MissingSeparator);
    }
    if n < 3 {
        return Err(CompileError::MissingName(kind));
    }
    let name = match &ts[2] {
        Token::Ident(name) => name,
        _ => {
            return Err(CompileError::MissingName(kind));
        },
    };
    let attr_group = if n > 3 {
        match &ts[3] {
            Token::Group(Delim::Paren, inner) => Some(inner),
            _ => None,
        }
    } else {
        None
    };
    let (attributes, unknown_attributes, p) = match attr_group {
        Some(inner) => match get_obj_attributes(inner) {
            Ok((a, u)) => (a, u, 4),
            Err(e) => {
                return Err(e);
            },
        },
        None => {
            let a: Vec<ObjAttribute> = Vec::new();
            let u: Vec<String> = Vec::new();
            assert(attrs_text(a@) =~= no_attrs().attrs);
            assert(u@.map_values(|s: String| s@) =~= no_attrs().unknown);
            (a, u, 3)
        },
    };
    let body = match parse_body(ts, p, kind, name) {
        Ok(b) => b,
        Err(e) => {
            return Err(e);
        },
    };
    Ok(Declaration { kind, name: name.clone(), attributes, unknown_attributes, body })
}

} // verus!

verus! {

proof fn lemma_scan_fields_builtin(ts: Seq<Token>, i: int, kind: ObjectType, acc: Seq<FieldModel>)
    requires
        forall|j: int| 0 <= j < acc.len() ==> scalars_builtin(#[trigger] acc[j].ty),
    ensures
        scan_fields(ts, i, kind, acc) matches Ok(fs) ==> forall|j: int|
            0 <= j < fs.len() ==> scalars_builtin(#[trigger] fs[j].ty),
    decreases ts.len() - i,
{
    if 0 <= i && i + 3 <= ts.len() {
        if let Token::Group(_, inner) = ts[i + 2] {
            lemma_field_builtin(inner@, kind);
            if let Ok(f) = field_result(inner@, kind) {
                let acc2 = acc.push(f);
                assert forall|j: int| 0 <= j < acc2.len() implies scalars_builtin(
                    #[trigger] acc2[j].ty,
                ) by {
                    if j < acc.len() {
                        assert(acc2[j] == acc[j]);
                    }
                }
                lemma_scan_fields_builtin(ts, after_entry(ts, i, 3), kind, acc2);
            }
        }
    }
}

/// Every field of a parsed table or struct has a type of builtin scalars only.
pub proof fn lemma_decl_builtin(ts: Seq<Token>)
    ensures
        decl_result(ts) matches Ok(d) ==> (d.body matches BodyModel::Fields(fs) ==> forall|j: int|
            0 <= j < fs.len() ==> scalars_builtin(#[trigger] fs[j].ty)),
{
    if ts.len() > 4 {
        if let Token::Group(_, inner) = ts[4] {
            lemma_scan_fields_builtin(inner@, 0, ObjectType::Table, Seq::empty());
            lemma_scan_fields_builtin(inner@, 0, ObjectType::Struct, Seq::empty());
        }
    }
    if ts.len() > 3 {
        if let Token::Group(_, inner) = ts[3] {
            lemma_scan_fields_builtin(inner@, 0, ObjectType::Table, Seq::empty());
            lemma_scan_fields_builtin(inner@, 0, ObjectType::Struct, Seq::empty());
        }
    }
}

} // verus!

verus! {

proof fn lemma_scan_fields_push(ts: Seq<Token>, i: int, kind: ObjectType, acc: Seq<FieldModel>)
    requires
        0 <= i < ts.len(),
        !(ts.last() is Comma),
        scan_fields(ts, i, kind, acc) is Ok,
    ensures
        scan_fields(ts.push(Token::Comma), i, kind, acc) == scan_fields(ts, i, kind, acc),
    decreases ts.len() - i,
{
    let tc = ts.push(Token::Comma);
    assert(i + 3 <= ts.len());
    assert(tc[i] == ts[i] && tc[i + 1] == ts[i + 1] && tc[i + 2] == ts[i + 2]);
    if let Token::Group(_, inner) = ts[i + 2] {
        if let Ok(f) = field_result(inner@, kind) {
            let next = after_entry(ts, i, 3);
            if i + 3 < ts.len() {
                assert(tc[i + 3] == ts[i + 3]);
                assert(after_entry(tc, i, 3) == next);
                if ts[i + 3] is Comma {
                    assert(i + 4 < ts.len()) by {
                        if i + 4 == ts.len() {
                            assert(ts.last() == ts[i + 3]);
                        }
                    }
                }
                lemma_scan_fields_push(ts, next, kind, acc.push(f));
                assert(scan_fields(ts, i, kind, acc) == scan_fields(ts, next, kind, acc.push(f)));
                assert(scan_fields(tc, i, kind, acc) == scan_fields(tc, next, kind, acc.push(f)));
            } else {
                assert(tc[i + 3] is Comma);
                assert(after_entry(tc, i, 3) == tc.len());
                assert(next == ts.len());
                assert(scan_fields(ts, i, kind, acc) == scan_fields(ts, next, kind, acc.push(f)));
                assert(scan_fields(tc, i, kind, acc) == scan_fields(
                    tc,
                    tc.len() as int,
                    kind,
                    acc.push(f),
                ));
            }
        }
    }
}

/// A well-formed field list with a trailing comma parses exactly as the same
/// list without it.
pub proof fn lemma_field_list_trailing_comma(ts: Seq<Token>, kind: ObjectType)
    requires
        ts.len() > 0,
        !(ts.last() is Comma),
        scan_fields(ts, 0, kind, Seq::empty()) is Ok,
    ensures
        scan_fields(ts.push(Token::Comma), 0, kind, Seq::empty()) == scan_fields(
            ts,
            0,
            kind,
            Seq::empty(),
        ),
{
    lemma_scan_fields_push(ts, 0, kind, Seq::empty());
}

} // verus!
