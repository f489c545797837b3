//! Enum declarations and union tag sets: a closed set of named integer
//! values and its decoder.
use vstd::prelude::*;
use vstd::string::*;
use crate::error::{CompileError, ErrModel};
use crate::text::{integer_of, parse_integer, str_eq};
use crate::types::{scalar_of, scalar_repr};

verus! {

/// One member of an enum as written: its name and its integer literal.
#[derive(Debug, Clone, PartialEq, Eq)]
pub struct EnumItem {
    pub name: String,
    pub value: String,
}

/// A member of a built enum, with its value read.
#[derive(Debug, PartialEq, Eq)]
pub struct EnumVariant {
    pub name: String,
    pub value: i128,
}

/// A closed variant set over an integer representation.
#[derive(Debug, PartialEq, Eq)]
pub struct EnumDecl {
    pub name: String,
    pub repr: String,
    pub variants: Vec<EnumVariant>,
}

pub ghost struct EnumModel {
    pub name: Seq<char>,
    pub repr: Seq<char>,
    pub variants: Seq<(Seq<char>, int)>,
}

impl View for EnumDecl {
    type V = EnumModel;

    open spec fn view(&self) -> EnumModel {
        EnumModel {
            name: self.name@,
            repr: self.repr@,
            variants: self.variants@.map_values(|v: EnumVariant| variant_pair(v)),
        }
    }
}

pub open spec fn variant_pair(v: EnumVariant) -> (Seq<char>, int) {
    (v.name@, v.value as int)
}

/// Items as pairs of name and literal.
pub open spec fn items_text(items: Seq<EnumItem>) -> Seq<(Seq<char>, Seq<char>)> {
    items.map_values(|it: EnumItem| (it.name@, it.value@))
}

/// An item as its name and the integer its literal writes.
pub open spec fn pair_value(p: (Seq<char>, Seq<char>)) -> (Seq<char>, int) {
    (p.0, integer_of(p.1)->0)
}

/// The integer representation named by a base type: a scalar keyword or the
/// representation itself.
pub open spec fn enum_repr(base: Seq<char>) -> Seq<char> {
    match scalar_repr(base) {
        Some(r) => r,
        None => base,
    }
}

/// The least and greatest value of an integer representation.
pub open spec fn int_bounds(repr: Seq<char>) -> Option<(int, int)> {
    if repr == "i8"@ {
        Some((-0x80, 0x7f))
    } else if repr == "u8"@ {
        Some((0, 0xff))
    } else if repr == "i16"@ {
        Some((-0x8000, 0x7fff))
    } else if repr == "u16"@ {
        Some((0, 0xffff))
    } else if repr == "i32"@ {
        Some((-0x8000_0000, 0x7fff_ffff))
    } else if repr == "u32"@ {
        Some((0, 0xffff_ffff))
    } else if repr == "i64"@ {
        Some((-0x8000_0000_0000_0000, 0x7fff_ffff_ffff_ffff))
    } else if repr == "u64"@ {
        Some((0, 0xffff_ffff_ffff_ffff))
    } else {
        None
    }
}

/// Whether the literal `value` writes an integer in `lo..=hi`.
pub open spec fn value_fits(value: Seq<char>, lo: int, hi: int) -> bool {
    match integer_of(value) {
        Some(v) => lo <= v <= hi,
        None => false,
    }
}

/// The first item in `items` whose value does not fit in `lo..=hi`.
pub open spec fn first_misfit(items: Seq<(Seq<char>, Seq<char>)>, lo: int, hi: int) -> Option<int> {
    if exists|i: int| 0 <= i < items.len() && !value_fits(items[i].1, lo, hi) {
        Some(
            choose|i: int|
                0 <= i < items.len() && !value_fits(items[i].1, lo, hi) && forall|j: int|
                    0 <= j < i ==> value_fits(#[trigger] items[j].1, lo, hi),
        )
    } else {
        None
    }
}

/// The decoding of `raw`: the first variant whose value is `raw`, if any.
pub open spec fn decode_model(variants: Seq<(Seq<char>, int)>, raw: int) -> Option<Seq<char>>
    decreases variants.len(),
{
    if variants.len() == 0 {
        None
    } else if variants[0].1 == raw {
        Some(variants[0].0)
    } else {
        decode_model(variants.drop_first(), raw)
    }
}

fn int_bounds_of(repr: &str) -> (r: Option<(i128, i128)>)
    ensures
        r matches Some(b) ==> int_bounds(repr@) == Some((b.0 as int, b.1 as int)),
        r is None ==> int_bounds(repr@) is None,
{
    if str_eq(repr, "i8") {
        Some((-0x80, 0x7f))
    } else if str_eq(repr, "u8") {
        Some((0, 0xff))
    } else if str_eq(repr, "i16") {
        Some((-0x8000, 0x7fff))
    } else if str_eq(repr, "u16") {
        Some((0, 0xffff))
    } else if str_eq(repr, "i32") {
        Some((-0x8000_0000, 0x7fff_ffff))
    } else if str_eq(repr, "u32") {
        Some((0, 0xffff_ffff))
    } else if str_eq(repr, "i64") {
        Some((-0x8000_0000_0000_0000, 0x7fff_ffff_ffff_ffff))
    } else if str_eq(repr, "u64") {
        Some((0, 0xffff_ffff_ffff_ffff))
    } else {
        None
    }
}

fn misfit_at(items: &[EnumItem], lo: i128, hi: i128, i: usize) -> (e: CompileError)
    requires
        i < items@.len(),
        forall|j: int| 0 <= j < i ==> value_fits(#[trigger] items@[j].value@, lo as int, hi as int),
        !value_fits(items@[i as int].value@, lo as int, hi as int),
    ensures
        first_misfit(items_text(items@), lo as int, hi as int) == Some(i as int),
        e == CompileError::InvalidEnumValue(items@[i as int].name),
{
    let ghost t = items_text(items@);
    assert(t[i as int].1 == items@[i as int].value@);
    assert(!value_fits(t[i as int].1, lo as int, hi as int));
    let ghost k = first_misfit(t, lo as int, hi as int)->0;
    assert(k == i) by {
        if k < i {
            assert(t[k].1 == items@[k].value@);
            assert(value_fits(items@[k].value@, lo as int, hi as int));
        }
        if k > i {
            assert(value_fits(t[i as int].1, lo as int, hi as int));
        }
    }
    CompileError::InvalidEnumValue(items[i].name.clone())
}

/// Reads the value of each item; fails on the first that does not fit `lo..=hi`.
fn build_enum_def(items: &[EnumItem], lo: i128, hi: i128) -> (r: Result<
    Vec<EnumVariant>,
    CompileError,
>)
    requires
        -0xffff_ffff_ffff_ffff <= lo,
        hi <= 0xffff_ffff_ffff_ffff,
    ensures
        r matches Ok(vs) ==> first_misfit(items_text(items@), lo as int, hi as int) is None && vs@.map_values(
            |v: EnumVariant| variant_pair(v),
        ) == items_text(items@).map_values(|p: (Seq<char>, Seq<char>)| pair_value(p)),
        r matches Err(e) ==> first_misfit(items_text(items@), lo as int, hi as int) matches Some(i)
            && 0 <= i < items@.len()
            && e == CompileError::InvalidEnumValue(items@[i].name),
{
    let mut vs: Vec<EnumVariant> = Vec::new();
    let mut i: usize = 0;
    while i < items.len()
        invariant
            i <= items@.len(),
            vs@.len() == i,
            -0xffff_ffff_ffff_ffff <= lo,
            hi <= 0xffff_ffff_ffff_ffff,
            forall|j: int| 0 <= j < i ==> value_fits(#[trigger] items@[j].value@, lo as int, hi as int),
            vs@.map_values(|v: EnumVariant| variant_pair(v)) == items_text(items@).subrange(
                0,
                i as int,
            ).map_values(|p: (Seq<char>, Seq<char>)| pair_value(p)),
        decreases items@.len() - i,
    {
        let it = &items[i];
        assert(*it == items@[i as int]);
        let parsed = parse_integer(it.value.as_str(), 0xffff_ffff_ffff_ffff);
        let v: i128 = match parsed {
            Some(v) => v,
            None => {
                assert(it.value@ == items@[i as int].value@);
                assert(!value_fits(items@[i as int].value@, lo as int, hi as int));
                return Err(misfit_at(items, lo, hi, i));
            },
        };
        if v < lo || v > hi {
            return Err(misfit_at(items, lo, hi, i));
        }
        let ghost before = vs@;
        vs.push(EnumVariant { name: it.name.clone(), value: v });
        let ghost sub = items_text(items@).subrange(0, i + 1);
        assert forall|j: int| 0 <= j < i + 1 implies #[trigger] variant_pair(vs@[j]) == pair_value(
            sub[j],
        ) by {
            if j < i {
                assert(vs@[j] == before[j]);
                assert(before.map_values(|v: EnumVariant| variant_pair(v))[j] == items_text(items@).subrange(
                    0,
                    i as int,
                ).map_values(|p: (Seq<char>, Seq<char>)| pair_value(p))[j]);
            }
        }
        assert(vs@.map_values(|v: EnumVariant| variant_pair(v)) =~= sub.map_values(
            |p: (Seq<char>, Seq<char>)| pair_value(p),
        ));
        i = i + 1;
    }
    assert(items@.subrange(0, i as int) == items@);
    Ok(vs)
}

} // verus!

verus! {

pub open spec fn opt_text(r: Option<String>) -> Option<Seq<char>> {
    match r {
        Some(s) => Some(s@),
        None => None,
    }
}

/// The enum `name` over base type `base` built from its items, in order.
/// Fails when `base` names no integer representation, or on the first item
/// whose literal is not an integer that the representation holds.
pub open spec fn enum_result(
    name: Seq<char>,
    base: Seq<char>,
    items: Seq<(Seq<char>, Seq<char>)>,
) -> Result<EnumModel, ErrModel> {
    match int_bounds(enum_repr(base)) {
        None => Err(ErrModel::InvalidEnumBase(base)),
        Some(b) => match first_misfit(items, b.0, b.1) {
            Some(i) => Err(ErrModel::InvalidEnumValue(items[i].0)),
            None => Ok(
                EnumModel {
                    name,
                    repr: enum_repr(base),
                    variants: items.map_values(|p: (Seq<char>, Seq<char>)| pair_value(p)),
                },
            ),
        },
    }
}

pub open spec fn enum_view(r: Result<EnumDecl, CompileError>) -> Result<EnumModel, ErrModel> {
    match r {
        Ok(d) => Ok(d@),
        Err(e) => Err(e@),
    }
}

/// Builds the enum `name` over base type `ty` from its items.
pub fn build_simple_enum(name: &str, ty: &str, items: &[EnumItem]) -> (r: Result<
    EnumDecl,
    CompileError,
>)
    ensures
        enum_view(r) == enum_result(name@, ty@, items_text(items@)),
{
    let repr = match scalar_of(ty) {
        Some(r) => r,
        None => String::from_str(ty),
    };
    let (lo, hi) = match int_bounds_of(repr.as_str()) {
        Some(b) => b,
        None => return Err(CompileError::InvalidEnumBase(String::from_str(ty))),
    };
    match build_enum_def(items, lo, hi) {
        Ok(variants) => Ok(EnumDecl { name: String::from_str(name), repr, variants }),
        Err(e) => {
            proof {
                let k = first_misfit(items_text(items@), lo as int, hi as int)->0;
                assert(items_text(items@)[k].0 == items@[k].name@);
            }
            Err(e)
        },
    }
}

impl EnumDecl {
    /// The name of the first variant whose value is `raw`; `None` when no
    /// variant has that value.
    pub fn decode(&self, raw: i128) -> (r: Option<String>)
        ensures
            opt_text(r) == decode_model(self@.variants, raw as int),
    {
        let ghost all = self@.variants;
        assert(all.subrange(0, all.len() as int) == all);
        let mut i: usize = 0;
        while i < self.variants.len()
            invariant
                i <= self.variants@.len(),
                all == self@.variants,
                decode_model(all, raw as int) == decode_model(
                    all.subrange(i as int, all.len() as int),
                    raw as int,
                ),
            decreases self.variants@.len() - i,
        {
            let ghost rest = all.subrange(i as int, all.len() as int);
            assert(rest[0] == variant_pair(self.variants@[i as int]));
            if self.variants[i].value == raw {
                return Some(self.variants[i].name.clone());
            }
            assert(rest.drop_first() == all.subrange(i + 1, all.len() as int));
            i = i + 1;
        }
        None
    }
}

} // verus!

verus! {

/// Decoding is the partial inverse of the declaration: a raw value decodes
/// to the first variant declared with it, and to nothing when no variant
/// has it.
pub proof fn lemma_decode_first_match(variants: Seq<(Seq<char>, int)>, raw: int)
    ensures
        decode_model(variants, raw) matches Some(n) ==> exists|i: int|
            0 <= i < variants.len() && variants[i].1 == raw && variants[i].0 == n && forall|j: int|
                0 <= j < i ==> (#[trigger] variants[j]).1 != raw,
        decode_model(variants, raw) is None ==> forall|i: int|
            0 <= i < variants.len() ==> (#[trigger] variants[i]).1 != raw,
    decreases variants.len(),
{
    if variants.len() > 0 && variants[0].1 != raw {
        let rest = variants.drop_first();
        lemma_decode_first_match(rest, raw);
        if let Some(n) = decode_model(rest, raw) {
            let k = choose|k: int|
                0 <= k < rest.len() && rest[k].1 == raw && rest[k].0 == n && forall|j: int|
                    0 <= j < k ==> (#[trigger] rest[j]).1 != raw;
            assert(variants[k + 1] == rest[k]);
            assert forall|j: int| 0 <= j < k + 1 implies (#[trigger] variants[j]).1 != raw by {
                if j > 0 {
                    assert(variants[j] == rest[j - 1]);
                }
            }
        } else {
            assert forall|i: int| 0 <= i < variants.len() implies (#[trigger] variants[i]).1
                != raw by {
                if i > 0 {
                    assert(variants[i] == rest[i - 1]);
                }
            }
        }
    }
}

} // verus!

verus! {

/// The tags of a union over `members`: `NONE` is 0, and the member at
/// position `i` is `i + 1`.
pub open spec fn union_variants(members: Seq<Seq<char>>) -> Seq<(Seq<char>, int)> {
    seq![("NONE"@, 0int)] + Seq::new(members.len(), |i: int| (members[i], i + 1))
}

/// The tag set of the union `name`: a `u8` enum, so at most 255 members.
pub open spec fn union_result(name: Seq<char>, members: Seq<Seq<char>>) -> Result<
    EnumModel,
    ErrModel,
> {
    if members.len() > 255 {
        Err(ErrModel::InvalidEnumValue(members[255]))
    } else {
        Ok(EnumModel { name, repr: "u8"@, variants: union_variants(members) })
    }
}

/// Builds the tag set of the union `name` over the tables `members`.
pub fn build_union(name: &str, members: &Vec<String>) -> (r: Result<EnumDecl, CompileError>)
    ensures
        enum_view(r) == union_result(name@, members@.map_values(|m: String| m@)),
{
    let ghost ms = members@.map_values(|m: String| m@);
    if members.len() > 255 {
        return Err(CompileError::InvalidEnumValue(members[255].clone()));
    }
    let mut variants: Vec<EnumVariant> = Vec::new();
    variants.push(EnumVariant { name: String::from_str("NONE"), value: 0 });
    let mut i: usize = 0;
    while i < members.len()
        invariant
            i <= members@.len() <= 255,
            variants@.len() == i + 1,
            ms == members@.map_values(|m: String| m@),
            variants@.map_values(|v: EnumVariant| variant_pair(v)) == union_variants(
                ms.subrange(0, i as int),
            ),
        decreases members@.len() - i,
    {
        let ghost before = variants@;
        variants.push(EnumVariant { name: members[i].clone(), value: (i + 1) as i128 });
        let ghost old_u = union_variants(ms.subrange(0, i as int));
        let ghost new_u = union_variants(ms.subrange(0, i + 1));
        assert(before.map_values(|v: EnumVariant| variant_pair(v)) == old_u);
        assert(variants@.len() == new_u.len());
        assert forall|j: int| 0 <= j < new_u.len() implies #[trigger] variant_pair(variants@[j])
            == new_u[j] by {
            if j < i + 1 {
                assert(variants@[j] == before[j]);
                assert(before.map_values(|v: EnumVariant| variant_pair(v))[j] == old_u[j]);
            }
        }
        assert(variants@.map_values(|v: EnumVariant| variant_pair(v)) =~= union_variants(
            ms.subrange(0, i + 1),
        ));
        i = i + 1;
    }
    assert(ms.subrange(0, i as int) == ms);
    Ok(EnumDecl { name: String::from_str(name), repr: String::from_str("u8"), variants })
}

} // verus!
