//! Field clauses: `field => { key = value, ... }`.
use vstd::prelude::*;
use vstd::string::*;
use crate::enums::opt_text;
use crate::error::{AttrKey, CompileError, ErrModel, text_after};
use crate::text::{natural_of, parse_natural, str_eq};
use crate::token::{LitKind, Token, render_tokens, tokens_text};
use crate::types::{
    FieldDef, FieldModel, FieldType, ObjectType, TypeModel, lemma_resolve_builtin, map_ty, resolve,
    scalars_builtin,
};

verus! {

/// What the keys scanned so far of one field clause have given.
pub ghost struct Clause {
    pub name: Option<Seq<char>>,
    pub ty: Option<TypeModel>,
    pub slot: Option<u8>,
    pub default: Option<Seq<char>>,
    pub comments: Seq<Seq<char>>,
}

pub open spec fn empty_clause() -> Clause {
    Clause { name: None, ty: None, slot: None, default: None, comments: Seq::empty() }
}

/// The first comma at or after `i`, or the length of `ts`.
pub open spec fn next_comma(ts: Seq<Token>, i: int) -> int
    decreases ts.len() - i,
{
    if i < 0 || i >= ts.len() {
        ts.len() as int
    } else if ts[i] is Comma {
        i
    } else {
        next_comma(ts, i + 1)
    }
}

/// A value that is a single identifier.
pub open spec fn ident_value(value: Seq<Token>) -> Option<Seq<char>> {
    if value.len() == 1 {
        match value[0] {
            Token::Ident(s) => Some(s@),
            _ => None,
        }
    } else {
        None
    }
}

/// A value that is a single identifier or literal of any kind, or a
/// negative number: `-` then a literal that is not a string.
pub open spec fn plain_value(value: Seq<Token>) -> Option<Seq<char>> {
    if value.len() == 1 {
        match value[0] {
            Token::Ident(s) => Some(s@),
            Token::Literal(_, s) => Some(s@),
            _ => None,
        }
    } else if value.len() == 2 {
        match (value[0], value[1]) {
            (Token::Punct(p), Token::Literal(k, s)) => if p@ == "-"@ && k != LitKind::Str {
                Some("-"@ + s@)
            } else {
                None
            },
            _ => None,
        }
    } else {
        None
    }
}

/// A value that is a single literal of kind `want`.
pub open spec fn literal_value(value: Seq<Token>, want: LitKind) -> Option<Seq<char>> {
    if value.len() == 1 {
        match value[0] {
            Token::Literal(k, s) => if k == want {
                Some(s@)
            } else {
                None
            },
            _ => None,
        }
    } else {
        None
    }
}

/// A slot: a single integer literal in `0..=255`.
pub open spec fn slot_value(value: Seq<Token>) -> Option<u8> {
    match literal_value(value, LitKind::Int) {
        Some(s) => match natural_of(s) {
            Some(v) => if v <= 255 {
                Some(v as u8)
            } else {
                None
            },
            None => None,
        },
        None => None,
    }
}

/// The effect of one `key = value` pair on the clause scanned so far.
pub open spec fn apply_kv(seg: Seq<Token>, c: Clause) -> Result<Clause, ErrModel> {
    if seg.len() < 3 || !(seg[1] is Eq) {
        Err(ErrModel::InvalidFieldDef)
    } else {
        let value = seg.subrange(2, seg.len() as int);
        match seg[0] {
            Token::Ident(k) => {
                let key = k@;
                if key == "name"@ {
                    match ident_value(value) {
                        Some(n) => Ok(Clause { name: Some(n), ..c }),
                        None => Err(ErrModel::InvalidFieldDef),
                    }
                } else if key == "typeOf"@ {
                    match resolve(tokens_text(value)) {
                        Some(t) => Ok(Clause { ty: Some(t), ..c }),
                        None => Err(ErrModel::UnresolvedType(tokens_text(value))),
                    }
                } else if key == "default"@ {
                    match plain_value(value) {
                        Some(d) => Ok(Clause { default: Some(d), ..c }),
                        None => Err(ErrModel::InvalidFieldDef),
                    }
                } else if key == "slot"@ {
                    match slot_value(value) {
                        Some(v) => Ok(Clause { slot: Some(v), ..c }),
                        None => Err(ErrModel::SlotNotInteger),
                    }
                } else if key == "comment"@ {
                    match literal_value(value, LitKind::Str) {
                        Some(s) => Ok(Clause { comments: c.comments.push(s), ..c }),
                        None => Err(ErrModel::InvalidFieldDef),
                    }
                } else {
                    Err(ErrModel::UnexpectedAttribute(key))
                }
            },
            _ => Err(ErrModel::InvalidFieldDef),
        }
    }
}

/// Scans the comma-separated pairs of `ts` from position `i` on. A trailing
/// comma is allowed; an empty pair is not.
pub open spec fn scan_pairs(ts: Seq<Token>, i: int, c: Clause) -> Result<Clause, ErrModel>
    decreases ts.len() - i,
{
    if i < 0 || i >= ts.len() {
        Ok(c)
    } else {
        let j = next_comma(ts, i);
        if j <= i {
            Err(ErrModel::InvalidFieldDef)
        } else {
            match apply_kv(ts.subrange(i, j), c) {
                Err(e) => Err(e),
                Ok(c2) => if j >= ts.len() {
                    Ok(c2)
                } else {
                    scan_pairs(ts, j + 1, c2)
                },
            }
        }
    }
}

/// The required keys that the clause lacks, in canonical order: `default`
/// (for tables only), `name`, `slot`, `typeOf`.
pub open spec fn missing_keys(c: Clause, kind: ObjectType) -> Seq<AttrKey> {
    (if kind == ObjectType::Table && c.default is None {
        seq![AttrKey::Default]
    } else {
        Seq::empty()
    }) + (if c.name is None {
        seq![AttrKey::Name]
    } else {
        Seq::empty()
    }) + (if c.slot is None {
        seq![AttrKey::Slot]
    } else {
        Seq::empty()
    }) + (if c.ty is None {
        seq![AttrKey::TypeOf]
    } else {
        Seq::empty()
    })
}

/// The field a fully scanned clause defines.
pub open spec fn finish(c: Clause, kind: ObjectType) -> Result<FieldModel, ErrModel> {
    if missing_keys(c, kind).len() > 0 {
        Err(ErrModel::MissingRequiredAttributes(missing_keys(c, kind)))
    } else {
        Ok(
            FieldModel {
                name: c.name->0,
                ty: c.ty->0,
                slot: c.slot->0,
                default: match c.default {
                    Some(d) => d,
                    None => Seq::empty(),
                },
                comments: c.comments,
            },
        )
    }
}

/// The outcome of parsing the interior `ts` of a field clause of an object of `kind`.
pub open spec fn field_result(ts: Seq<Token>, kind: ObjectType) -> Result<FieldModel, ErrModel> {
    if ts.len() == 0 {
        Err(ErrModel::InvalidFieldDef)
    } else {
        match scan_pairs(ts, 0, empty_clause()) {
            Err(e) => Err(e),
            Ok(c) => finish(c, kind),
        }
    }
}

pub open spec fn field_view(r: Result<FieldDef, CompileError>) -> Result<FieldModel, ErrModel> {
    match r {
        Ok(f) => Ok(f@),
        Err(e) => Err(e@),
    }
}

} // verus!

verus! {

/// What the keys scanned so far of one field clause have given.
pub(crate) struct ClauseAcc {
    pub(crate) name: Option<String>,
    pub(crate) ty: Option<FieldType>,
    pub(crate) slot: Option<u8>,
    pub(crate) default: Option<String>,
    pub(crate) comments: Vec<String>,
}

impl View for ClauseAcc {
    type V = Clause;

    closed spec fn view(&self) -> Clause {
        Clause {
            name: opt_text(self.name),
            ty: match self.ty {
                Some(t) => Some(t@),
                None => None,
            },
            slot: self.slot,
            default: opt_text(self.default),
            comments: self.comments@.map_values(|s: String| s@),
        }
    }
}

fn next_comma_exec(ts: &Vec<Token>, i: usize) -> (r: usize)
    requires
        i <= ts@.len(),
    ensures
        r == next_comma(ts@, i as int),
        i <= r <= ts@.len(),
{
    let mut j = i;
    while j < ts.len() && !matches!(ts[j], Token::Comma)
        invariant
            i <= j <= ts@.len(),
            next_comma(ts@, j as int) == next_comma(ts@, i as int),
        decreases ts@.len() - j,
    {
        j = j + 1;
    }
    j
}

fn ident_at(ts: &Vec<Token>, from: usize, to: usize) -> (r: Option<String>)
    requires
        from <= to <= ts@.len(),
    ensures
        opt_text(r) == ident_value(ts@.subrange(from as int, to as int)),
{
    if to - from != 1 {
        return None;
    }
    match &ts[from] {
        Token::Ident(s) => Some(s.clone()),
        _ => None,
    }
}

fn plain_at(ts: &Vec<Token>, from: usize, to: usize) -> (r: Option<String>)
    requires
        from <= to <= ts@.len(),
    ensures
        opt_text(r) == plain_value(ts@.subrange(from as int, to as int)),
{
    if to - from == 2 {
        return match (&ts[from], &ts[from + 1]) {
            (Token::Punct(p), Token::Literal(k, s)) => if str_eq(p.as_str(), "-") && *k
                != LitKind::Str {
                Some(text_after("-", s.as_str()))
            } else {
                None
            },
            _ => None,
        };
    }
    if to - from != 1 {
        return None;
    }
    match &ts[from] {
        Token::Ident(s) => Some(s.clone()),
        Token::Literal(_, s) => Some(s.clone()),
        _ => None,
    }
}

fn literal_at(ts: &Vec<Token>, from: usize, to: usize, want: LitKind) -> (r: Option<String>)
    requires
        from <= to <= ts@.len(),
    ensures
        opt_text(r) == literal_value(ts@.subrange(from as int, to as int), want),
{
    if to - from != 1 {
        return None;
    }
    match &ts[from] {
        Token::Literal(k, s) => if *k == want {
            Some(s.clone())
        } else {
            None
        },
        _ => None,
    }
}

/// Applies the pair `ts[i..j]` to the clause scanned so far.
fn apply_pair(ts: &Vec<Token>, i: usize, j: usize, acc: &mut ClauseAcc) -> (r: Result<
    (),
    CompileError,
>)
    requires
        i < j <= ts@.len(),
    ensures
        match apply_kv(ts@.subrange(i as int, j as int), old(acc)@) {
            Ok(c) => r is Ok && final(acc)@ == c,
            Err(e) => r matches Err(x) && x@ == e,
        },
{
    let ghost seg = ts@.subrange(i as int, j as int);
    if j - i < 3 || !matches!(ts[i + 1], Token::Eq) {
        return Err(CompileError::InvalidFieldDef);
    }
    assert(seg[1] == ts@[i + 1]);
    assert(seg.subrange(2, seg.len() as int) == ts@.subrange(i + 2, j as int));
    let key = match &ts[i] {
        Token::Ident(k) => k,
        _ => {
            return Err(CompileError::InvalidFieldDef);
        },
    };
    let k = key.as_str();
    let v = i + 2;
    if str_eq(k, "name") {
        match ident_at(ts, v, j) {
            Some(n) => {
                acc.name = Some(n);
                Ok(())
            },
            None => Err(CompileError::InvalidFieldDef),
        }
    } else if str_eq(k, "typeOf") {
        let text = render_tokens(ts, v, j);
        match map_ty(text.clone()) {
            Some(t) => {
                acc.ty = Some(t);
                Ok(())
            },
            None => Err(CompileError::UnresolvedType(text)),
        }
    } else if str_eq(k, "default") {
        match plain_at(ts, v, j) {
            Some(d) => {
                acc.default = Some(d);
                Ok(())
            },
            None => Err(CompileError::InvalidFieldDef),
        }
    } else if str_eq(k, "slot") {
        let slot = match literal_at(ts, v, j, LitKind::Int) {
            Some(s) => parse_natural(s.as_str(), 255),
            None => None,
        };
        match slot {
            Some(n) => {
                acc.slot = Some(n as u8);
                Ok(())
            },
            None => Err(CompileError::SlotNotInteger),
        }
    } else if str_eq(k, "comment") {
        match literal_at(ts, v, j, LitKind::Str) {
            Some(c) => {
                let ghost before = acc.comments@;
                acc.comments.push(c);
                assert(acc.comments@.map_values(|s: String| s@) =~= before.map_values(
                    |s: String| s@,
                ).push(c@));
                Ok(())
            },
            None => Err(CompileError::InvalidFieldDef),
        }
    } else {
        Err(CompileError::UnexpectedAttribute(key.clone()))
    }
}

/// Builds the field from a fully scanned clause, or names every required key it lacks.
fn finish_clause(acc: ClauseAcc, objty: ObjectType) -> (r: Result<FieldDef, CompileError>)
    ensures
        field_view(r) == finish(acc@, objty),
{
    let mut missing: Vec<AttrKey> = Vec::new();
    if objty == ObjectType::Table && acc.default.is_none() {
        missing.push(AttrKey::Default);
    }
    if acc.name.is_none() {
        missing.push(AttrKey::Name);
    }
    if acc.slot.is_none() {
        missing.push(AttrKey::Slot);
    }
    if acc.ty.is_none() {
        missing.push(AttrKey::TypeOf);
    }
    assert(missing@ =~= missing_keys(acc@, objty));
    if missing.len() > 0 {
        return Err(CompileError::MissingRequiredAttributes(missing));
    }
    let ClauseAcc { name, ty, slot, default, comments } = acc;
    match (name, ty, slot) {
        (Some(name), Some(ty), Some(slot)) => {
            let default = match default {
                Some(d) => d,
                None => String::new(),
            };
            Ok(FieldDef { name, ty, slot, default, comments })
        },
        _ => Err(CompileError::InvalidFieldDef),
    }
}

/// Parses the interior of one field clause of an object of kind `objty`.
pub fn parse_field_names(tokens: &Vec<Token>, objty: ObjectType) -> (r: Result<
    FieldDef,
    CompileError,
>)
    ensures
        field_view(r) == field_result(tokens@, objty),
{
    let n = tokens.len();
    if n == 0 {
        return Err(CompileError::InvalidFieldDef);
    }
    let mut acc = ClauseAcc {
        name: None,
        ty: None,
        slot: None,
        default: None,
        comments: Vec::new(),
    };
    assert(acc@.comments =~= Seq::<Seq<char>>::empty());
    let mut i: usize = 0;
    while i < n
        invariant
            n == tokens@.len(),
            i <= n,
            scan_pairs(tokens@, 0, empty_clause()) == scan_pairs(tokens@, i as int, acc@),
        decreases n - i,
    {
        let j = next_comma_exec(tokens, i);
        if j <= i {
            return Err(CompileError::InvalidFieldDef);
        }
        match apply_pair(tokens, i, j, &mut acc) {
            Ok(()) => {},
            Err(e) => {
                return Err(e);
            },
        }
        i = if j < n {
            j + 1
        } else {
            n
        };
    }
    finish_clause(acc, objty)
}

} // verus!

verus! {

proof fn lemma_next_comma_push(ts: Seq<Token>, i: int)
    requires
        0 <= i <= ts.len(),
    ensures
        next_comma(ts.push(Token::Comma), i) == next_comma(ts, i),
    decreases ts.len() - i,
{
    if i < ts.len() && !(ts[i] is Comma) {
        assert(ts.push(Token::Comma)[i] == ts[i]);
        lemma_next_comma_push(ts, i + 1);
    } else if i < ts.len() {
        assert(ts.push(Token::Comma)[i] == ts[i]);
    } else {
        assert(ts.push(Token::Comma)[i] is Comma);
    }
}

proof fn lemma_scan_pairs_push(ts: Seq<Token>, i: int, c: Clause)
    requires
        0 <= i < ts.len(),
        !(ts.last() is Comma),
    ensures
        scan_pairs(ts.push(Token::Comma), i, c) == scan_pairs(ts, i, c),
    decreases ts.len() - i,
{
    let tc = ts.push(Token::Comma);
    lemma_next_comma_push(ts, i);
    let j = next_comma(ts, i);
    if j > i {
        assert(j <= ts.len()) by {
            lemma_next_comma_bounds(ts, i);
        }
        assert(tc.subrange(i, j) == ts.subrange(i, j));
        match apply_kv(ts.subrange(i, j), c) {
            Err(_) => {},
            Ok(c2) => {
                if j < ts.len() {
                    lemma_next_comma_is_comma(ts, i);
                    assert(j + 1 < ts.len());
                    lemma_scan_pairs_push(ts, j + 1, c2);
                } else {
                    assert(scan_pairs(tc, j + 1, c2) == Ok::<Clause, ErrModel>(c2));
                }
            },
        }
    }
}

proof fn lemma_next_comma_bounds(ts: Seq<Token>, i: int)
    requires
        0 <= i <= ts.len(),
    ensures
        i <= next_comma(ts, i) <= ts.len(),
    decreases ts.len() - i,
{
    if i < ts.len() && !(ts[i] is Comma) {
        lemma_next_comma_bounds(ts, i + 1);
    }
}

proof fn lemma_next_comma_is_comma(ts: Seq<Token>, i: int)
    requires
        0 <= i <= ts.len(),
        next_comma(ts, i) < ts.len(),
    ensures
        ts[next_comma(ts, i)] is Comma,
    decreases ts.len() - i,
{
    if i < ts.len() && !(ts[i] is Comma) {
        lemma_next_comma_is_comma(ts, i + 1);
    }
}

proof fn lemma_scan_never_missing(ts: Seq<Token>, i: int, c: Clause)
    ensures
        !(scan_pairs(ts, i, c) matches Err(ErrModel::MissingRequiredAttributes(_))),
    decreases ts.len() - i,
{
    if 0 <= i < ts.len() {
        let j = next_comma(ts, i);
        if j > i {
            if let Ok(c2) = apply_kv(ts.subrange(i, j), c) {
                if j < ts.len() {
                    lemma_scan_never_missing(ts, j + 1, c2);
                }
            }
        }
    }
}

/// A field clause with a trailing comma parses exactly as the same clause
/// without it.
pub proof fn lemma_trailing_comma(ts: Seq<Token>, kind: ObjectType)
    requires
        ts.len() > 0,
        !(ts.last() is Comma),
    ensures
        field_result(ts.push(Token::Comma), kind) == field_result(ts, kind),
{
    lemma_scan_pairs_push(ts, 0, empty_clause());
}

/// Outside tables `default` is never required: a clause of a struct, enum or
/// union that gives `name`, `slot` and `typeOf` parses, and a missing-keys
/// error never lists `default`.
pub proof fn lemma_default_optional(ts: Seq<Token>, kind: ObjectType)
    requires
        kind != ObjectType::Table,
    ensures
        field_result(ts, kind) matches Err(ErrModel::MissingRequiredAttributes(ks)) ==> !ks.contains(
            AttrKey::Default,
        ),
        ts.len() > 0 && (scan_pairs(ts, 0, empty_clause()) matches Ok(c) && c.name is Some
            && c.slot is Some && c.ty is Some) ==> field_result(ts, kind) is Ok,
{
    if ts.len() > 0 {
        lemma_scan_never_missing(ts, 0, empty_clause());
        if let Ok(c) = scan_pairs(ts, 0, empty_clause()) {
            let ks = missing_keys(c, kind);
            if ks.contains(AttrKey::Default) {
                let k = choose|k: int| 0 <= k < ks.len() && ks[k] == AttrKey::Default;
                assert(ks[k] != AttrKey::Default);
            }
        }
    }
}

} // verus!

verus! {

/// Whether the type the clause has given so far, if any, holds builtin scalars only.
pub open spec fn clause_builtin(c: Clause) -> bool {
    c.ty matches Some(t) ==> scalars_builtin(t)
}

proof fn lemma_scan_pairs_builtin(ts: Seq<Token>, i: int, c: Clause)
    requires
        clause_builtin(c),
    ensures
        scan_pairs(ts, i, c) matches Ok(c2) ==> clause_builtin(c2),
    decreases ts.len() - i,
{
    if 0 <= i < ts.len() {
        let j = next_comma(ts, i);
        if j > i {
            let seg = ts.subrange(i, j);
            if seg.len() >= 3 {
                lemma_resolve_builtin(tokens_text(seg.subrange(2, seg.len() as int)));
            }
            if let Ok(c2) = apply_kv(seg, c) {
                if j < ts.len() {
                    lemma_scan_pairs_builtin(ts, j + 1, c2);
                }
            }
        }
    }
}

/// A parsed field's type holds builtin scalars only.
pub proof fn lemma_field_builtin(ts: Seq<Token>, kind: ObjectType)
    ensures
        field_result(ts, kind) matches Ok(f) ==> scalars_builtin(f.ty),
{
    lemma_scan_pairs_builtin(ts, 0, empty_clause());
}

} // verus!
