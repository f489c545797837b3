use flatbuffers_schema::accessor::Accessor;
use flatbuffers_schema::compile::{compile, OutputItem};
use flatbuffers_schema::enums::{build_simple_enum, build_union, EnumItem, EnumVariant};
use flatbuffers_schema::error::{join_keys, AttrKey, CompileError, Severity};
use flatbuffers_schema::fields::parse_field_names;
use flatbuffers_schema::object::{get_obj_attributes, parse_declaration, Body};
use flatbuffers_schema::text::{nth_word, parse_integer, parse_natural};
use flatbuffers_schema::token::{render_tokens, Delim, LitKind, Token};
use flatbuffers_schema::types::{find_attribute, map_ty, FieldType, ObjAttribute, ObjectType};

fn ident(s: &str) -> Token {
    Token::Ident(s.to_string())
}

fn int_lit(s: &str) -> Token {
    Token::Literal(LitKind::Int, s.to_string())
}

fn text(s: &str) -> Token {
    Token::Literal(LitKind::Str, s.to_string())
}

fn group(d: Delim, ts: Vec<Token>) -> Token {
    Token::Group(d, ts)
}

fn kv(key: &str, value: Vec<Token>) -> Vec<Token> {
    let mut v = vec![ident(key), Token::Eq];
    v.extend(value);
    v
}

fn clause(pairs: Vec<Vec<Token>>) -> Vec<Token> {
    let mut v = Vec::new();
    let n = pairs.len();
    for (i, p) in pairs.into_iter().enumerate() {
        v.extend(p);
        if i + 1 < n {
            v.push(Token::Comma);
        }
    }
    v
}

fn scalar(s: &str) -> FieldType {
    FieldType::Scalar(s.to_string())
}

#[test]
fn scalar_keywords_resolve() {
    let table = [
        ("byte", "i8"),
        ("ubyte", "u8"),
        ("short", "i16"),
        ("ushort", "u16"),
        ("int", "i32"),
        ("uint", "u32"),
        ("long", "i64"),
        ("ulong", "u64"),
        ("float", "f32"),
        ("double", "f64"),
        ("bool", "bool"),
        ("string", "&str"),
    ];
    for (kw, repr) in table.iter() {
        assert_eq!(map_ty(kw.to_string()), Some(scalar(repr)));
    }
}

#[test]
fn vector_types_resolve() {
    assert_eq!(
        map_ty("[int]".to_string()),
        Some(FieldType::Vector(Box::new(scalar("i32"))))
    );
    assert_eq!(
        map_ty("[[int]]".to_string()),
        Some(FieldType::Vector(Box::new(FieldType::Vector(Box::new(scalar("i32"))))))
    );
    assert_eq!(
        map_ty("[Monster]".to_string()),
        Some(FieldType::Vector(Box::new(FieldType::Table("Monster".to_string()))))
    );
}

#[test]
fn union_and_enum_types_resolve() {
    assert_eq!(map_ty("union Foo".to_string()), Some(FieldType::Union("Foo".to_string())));
    assert_eq!(
        map_ty("enum Foo short".to_string()),
        Some(FieldType::Enum("Foo".to_string(), Box::new(scalar("i16"))))
    );
    assert_eq!(
        map_ty("[enum Color byte]".to_string()),
        Some(FieldType::Vector(Box::new(FieldType::Enum(
            "Color".to_string(),
            Box::new(scalar("i8"))
        ))))
    );
}

#[test]
fn enum_type_without_base_fails() {
    assert_eq!(map_ty("enum Foo".to_string()), None);
    assert_eq!(map_ty("enum ".to_string()), None);
    assert_eq!(map_ty("[enum Foo]".to_string()), None);
    assert_eq!(map_ty("union ".to_string()), None);
}

#[test]
fn unknown_type_is_a_table() {
    assert_eq!(map_ty("Bogus".to_string()), Some(FieldType::Table("Bogus".to_string())));
    assert_eq!(map_ty("[".to_string()), Some(FieldType::Table("[".to_string())));
}

#[test]
fn base_type_names() {
    assert_eq!(scalar("i32").base_type(), "i32");
    assert_eq!(FieldType::Table("Vec3".to_string()).base_type(), "Vec3");
    let v = FieldType::Vector(Box::new(FieldType::Vector(Box::new(scalar("u8")))));
    assert_eq!(v.base_type(), "Iter<'a,Iter<'a,u8>>");
    let e = FieldType::Enum("Color".to_string(), Box::new(scalar("i8")));
    assert_eq!(e.base_type(), "Color");
    assert_eq!(FieldType::Union("Any".to_string()).base_type(), "Any");
}

#[test]
fn table_field_missing_default_and_slot() {
    let ts = clause(vec![kv("name", vec![ident("pos")]), kv("typeOf", vec![ident("Vec3")])]);
    let err = parse_field_names(&ts, ObjectType::Table).unwrap_err();
    assert_eq!(
        err,
        CompileError::MissingRequiredAttributes(vec![AttrKey::Default, AttrKey::Slot])
    );
    assert_eq!(err.message(), "missing default and slot");
}

#[test]
fn table_field_missing_three_keys() {
    let ts = clause(vec![kv("typeOf", vec![ident("pos")])]);
    let err = parse_field_names(&ts, ObjectType::Table).unwrap_err();
    assert_eq!(err.message(), "missing default, name, and slot");
    let ts = clause(vec![kv("comment", vec![text("c")])]);
    let err = parse_field_names(&ts, ObjectType::Table).unwrap_err();
    assert_eq!(err.message(), "missing default, name, slot, and typeOf");
    let err = parse_field_names(&ts, ObjectType::Struct).unwrap_err();
    assert_eq!(err.message(), "missing name, slot, and typeOf");
}

#[test]
fn join_keys_formats() {
    assert_eq!(join_keys(&vec![]), "");
    assert_eq!(join_keys(&vec![AttrKey::Name]), "name");
    assert_eq!(join_keys(&vec![AttrKey::Name, AttrKey::TypeOf]), "name and typeOf");
}

#[test]
fn non_table_fields_may_omit_default() {
    let ts = clause(vec![
        kv("name", vec![ident("x")]),
        kv("typeOf", vec![ident("float")]),
        kv("slot", vec![int_lit("0")]),
    ]);
    for kind in [ObjectType::Struct, ObjectType::Enum, ObjectType::Union] {
        let f = parse_field_names(&ts, kind).unwrap();
        assert_eq!(f.name, "x");
        assert_eq!(f.ty, scalar("f32"));
        assert_eq!(f.slot, 0);
        assert_eq!(f.default, "");
    }
    assert!(parse_field_names(&ts, ObjectType::Table).is_err());
}

#[test]
fn comments_accumulate_in_order() {
    let ts = clause(vec![
        kv("name", vec![ident("hp")]),
        kv("comment", vec![text("a")]),
        kv("typeOf", vec![ident("short")]),
        kv("slot", vec![int_lit("2")]),
        kv("default", vec![int_lit("100")]),
        kv("comment", vec![text("b")]),
    ]);
    let f = parse_field_names(&ts, ObjectType::Table).unwrap();
    assert_eq!(f.comments, vec!["a".to_string(), "b".to_string()]);
    assert_eq!(f.default, "100");
    assert_eq!(f.slot, 2);
}

#[test]
fn trailing_comma_parses_the_same() {
    let ts = clause(vec![
        kv("name", vec![ident("pos")]),
        kv("typeOf", vec![group(Delim::Bracket, vec![ident("int")])]),
        kv("slot", vec![int_lit("4")]),
        kv("default", vec![ident("true")]),
    ]);
    let mut with_comma = clause(vec![
        kv("name", vec![ident("pos")]),
        kv("typeOf", vec![group(Delim::Bracket, vec![ident("int")])]),
        kv("slot", vec![int_lit("4")]),
        kv("default", vec![ident("true")]),
    ]);
    with_comma.push(Token::Comma);
    let a = parse_field_names(&ts, ObjectType::Table).unwrap();
    let b = parse_field_names(&with_comma, ObjectType::Table).unwrap();
    assert_eq!(a.name, b.name);
    assert_eq!(a.ty, b.ty);
    assert_eq!(a.ty, FieldType::Vector(Box::new(scalar("i32"))));
    assert_eq!(a.slot, b.slot);
    assert_eq!(a.default, b.default);
    assert_eq!(a.comments, b.comments);
    let mut doubled = ts;
    doubled.push(Token::Comma);
    doubled.push(Token::Comma);
    assert_eq!(parse_field_names(&doubled, ObjectType::Table).unwrap_err(), CompileError::InvalidFieldDef);
}

#[test]
fn field_errors() {
    let base = |slot: Token| {
        clause(vec![
            kv("name", vec![ident("x")]),
            kv("typeOf", vec![ident("int")]),
            kv("slot", vec![slot]),
            kv("default", vec![int_lit("0")]),
        ])
    };
    assert_eq!(parse_field_names(&base(int_lit("255")), ObjectType::Table).unwrap().slot, 255);
    assert_eq!(
        parse_field_names(&base(int_lit("256")), ObjectType::Table).unwrap_err(),
        CompileError::SlotNotInteger
    );
    assert_eq!(
        parse_field_names(&base(ident("four")), ObjectType::Table).unwrap_err(),
        CompileError::SlotNotInteger
    );
    let unknown = clause(vec![kv("colour", vec![ident("red")])]);
    let err = parse_field_names(&unknown, ObjectType::Table).unwrap_err();
    assert_eq!(err, CompileError::UnexpectedAttribute("colour".to_string()));
    assert_eq!(err.message(), "Unknown attribute: colour");
    let bad_type = clause(vec![kv("typeOf", vec![ident("enum"), ident("Foo")])]);
    let err = parse_field_names(&bad_type, ObjectType::Table).unwrap_err();
    assert_eq!(err, CompileError::UnresolvedType("enum Foo".to_string()));
    assert_eq!(err.message(), "Invalid field definition");
    assert_eq!(parse_field_names(&vec![], ObjectType::Table).unwrap_err(), CompileError::InvalidFieldDef);
    let no_eq = vec![ident("name"), ident("x")];
    assert_eq!(parse_field_names(&no_eq, ObjectType::Table).unwrap_err(), CompileError::InvalidFieldDef);
}

#[test]
fn enum_decoder_is_partial() {
    let items = vec![
        EnumItem { name: "Red".to_string(), value: "1".to_string() },
        EnumItem { name: "Blue".to_string(), value: "2".to_string() },
    ];
    let e = build_simple_enum("Color", "i8", &items).unwrap();
    assert_eq!(e.repr, "i8");
    assert_eq!(e.decode(1), Some("Red".to_string()));
    assert_eq!(e.decode(2), Some("Blue".to_string()));
    assert_eq!(e.decode(3), None);
    let e = build_simple_enum("Color", "byte", &items).unwrap();
    assert_eq!(e.repr, "i8");
}

#[test]
fn enum_decoder_takes_first_duplicate() {
    let items = vec![
        EnumItem { name: "A".to_string(), value: "5".to_string() },
        EnumItem { name: "B".to_string(), value: "5".to_string() },
        EnumItem { name: "C".to_string(), value: "-3".to_string() },
    ];
    let e = build_simple_enum("Dup", "i16", &items).unwrap();
    assert_eq!(e.decode(5), Some("A".to_string()));
    assert_eq!(e.decode(-3), Some("C".to_string()));
}

#[test]
fn enum_build_errors() {
    let items = vec![EnumItem { name: "Big".to_string(), value: "300".to_string() }];
    assert_eq!(
        build_simple_enum("E", "u8", &items).unwrap_err(),
        CompileError::InvalidEnumValue("Big".to_string())
    );
    assert!(build_simple_enum("E", "u16", &items).is_ok());
    assert_eq!(
        build_simple_enum("E", "float", &items).unwrap_err(),
        CompileError::InvalidEnumBase("float".to_string())
    );
    let neg = vec![EnumItem { name: "N".to_string(), value: "-1".to_string() }];
    assert!(build_simple_enum("E", "u32", &neg).is_err());
    assert!(build_simple_enum("E", "i32", &neg).is_ok());
}

#[test]
fn accessors_by_type() {
    let t = FieldType::Table("Weapon".to_string());
    let a = t.get_table_accessor(6, "42");
    assert_eq!(a, Accessor::ReadTable { name: "Weapon".to_string(), slot: 6 });
    assert_eq!(t.get_table_accessor(6, ""), a);
    let s = scalar("i16").get_table_accessor(4, "150");
    assert_eq!(
        s,
        Accessor::ReadScalar { repr: "i16".to_string(), slot: 4, default: "150".to_string() }
    );
    let u = FieldType::Union("Equipment".to_string()).get_table_accessor(8, "1");
    assert_eq!(
        u,
        Accessor::ReadUnion {
            name: "Equipment".to_string(),
            discriminant: "Equipment_type".to_string(),
            slot: 8
        }
    );
    let v = FieldType::Vector(Box::new(scalar("u8"))).get_table_accessor(10, "0");
    assert_eq!(v, Accessor::ReadVector { element: "u8".to_string(), slot: 10 });
    let e = FieldType::Enum("Color".to_string(), Box::new(scalar("i8"))).get_table_accessor(12, "2");
    assert_eq!(
        e,
        Accessor::DecodeEnum {
            name: "Color".to_string(),
            raw: Box::new(Accessor::ReadScalar {
                repr: "i8".to_string(),
                slot: 12,
                default: "2".to_string()
            })
        }
    );
}

#[test]
fn find_attribute_takes_first() {
    let attrs = vec![
        ObjAttribute { name: "size".to_string(), value: "32".to_string() },
        ObjAttribute { name: "size".to_string(), value: "64".to_string() },
    ];
    assert_eq!(find_attribute("size", &attrs), Some("32".to_string()));
    assert_eq!(find_attribute("align", &attrs), None);
}

#[test]
fn object_attributes() {
    let ts = vec![ident("size"), Token::Colon, int_lit("32"), Token::Comma, ident("align"), Token::Colon, int_lit("8")];
    let (attrs, unknown) = get_obj_attributes(&ts).unwrap();
    assert_eq!(attrs, vec![ObjAttribute { name: "size".to_string(), value: "32".to_string() }]);
    assert_eq!(unknown, vec!["align".to_string()]);
    let bad = vec![ident("size"), Token::Colon, ident("big")];
    assert_eq!(get_obj_attributes(&bad).unwrap_err(), CompileError::SizeNotInteger);
    let short = vec![ident("size"), Token::Colon];
    let err = get_obj_attributes(&short).unwrap_err();
    assert_eq!(err, CompileError::InvalidFieldDef);
    assert_eq!(err.message(), "Invalid field definition");
    let no_colon = vec![ident("size"), Token::Eq, int_lit("32")];
    let err = get_obj_attributes(&no_colon).unwrap_err();
    assert_eq!(err, CompileError::ExpectedColon);
    assert_eq!(err.message(), "Expected ':'");
    let bad_key = vec![int_lit("1"), Token::Colon, int_lit("32")];
    let err = get_obj_attributes(&bad_key).unwrap_err();
    assert_eq!(err, CompileError::ExpectedField);
    assert_eq!(err.message(), "Expected field");
}

fn monster_fields() -> Token {
    group(
        Delim::Bracket,
        vec![
            ident("field"),
            Token::FatArrow,
            group(
                Delim::Brace,
                clause(vec![
                    kv("name", vec![ident("hp")]),
                    kv("typeOf", vec![ident("short")]),
                    kv("slot", vec![int_lit("4")]),
                    kv("default", vec![int_lit("100")]),
                ]),
            ),
            Token::Comma,
            ident("field"),
            Token::FatArrow,
            group(
                Delim::Brace,
                clause(vec![
                    kv("name", vec![ident("pos")]),
                    kv("typeOf", vec![ident("Vec3")]),
                    kv("slot", vec![int_lit("6")]),
                    kv("default", vec![ident("true")]),
                ]),
            ),
        ],
    )
}

#[test]
fn compile_table() {
    let ts = vec![ident("Table"), Token::FatArrow, ident("Monster"), monster_fields()];
    let out = compile(&ts);
    assert!(out.diagnostics.is_empty());
    assert_eq!(out.items.len(), 1);
    match &out.items[0] {
        OutputItem::Object { kind, name, size, fields } => {
            assert_eq!(*kind, ObjectType::Table);
            assert_eq!(name, "Monster");
            assert_eq!(*size, None);
            assert_eq!(fields.len(), 2);
            assert_eq!(fields[0].field, "hp");
            assert_eq!(
                fields[0].accessor,
                Accessor::ReadScalar { repr: "i16".to_string(), slot: 4, default: "100".to_string() }
            );
            assert_eq!(fields[1].field, "pos");
            assert_eq!(fields[1].accessor, Accessor::ReadTable { name: "Vec3".to_string(), slot: 6 });
        }
        other => panic!("unexpected item {:?}", other),
    }
}

#[test]
fn compile_struct_with_size_and_unknown_attribute() {
    let attrs = group(
        Delim::Paren,
        vec![ident("size"), Token::Colon, int_lit("32"), Token::Comma, ident("align"), Token::Colon, int_lit("4")],
    );
    let fields = group(
        Delim::Brace,
        vec![
            ident("field"),
            Token::FatArrow,
            group(
                Delim::Brace,
                clause(vec![
                    kv("name", vec![ident("x")]),
                    kv("typeOf", vec![ident("float")]),
                    kv("slot", vec![int_lit("0")]),
                ]),
            ),
        ],
    );
    let ts = vec![ident("Struct"), Token::FatArrow, ident("Vec3"), attrs, fields];
    let out = compile(&ts);
    assert_eq!(out.diagnostics.len(), 1);
    assert_eq!(out.diagnostics[0].severity, Severity::Warning);
    assert_eq!(out.diagnostics[0].message, "Unknown attribute");
    match &out.items[0] {
        OutputItem::Object { kind, size, fields, .. } => {
            assert_eq!(*kind, ObjectType::Struct);
            assert_eq!(*size, Some("32".to_string()));
            assert_eq!(
                fields[0].accessor,
                Accessor::ReadScalar { repr: "f32".to_string(), slot: 0, default: String::new() }
            );
        }
        other => panic!("unexpected item {:?}", other),
    }
}

#[test]
fn compile_enum() {
    let items = group(
        Delim::Brace,
        vec![ident("Red"), Token::Eq, int_lit("1"), Token::Comma, ident("Blue"), Token::Eq, int_lit("2")],
    );
    let ts = vec![ident("Enum"), Token::FatArrow, ident("Color"), items, ident("as"), ident("i8")];
    let out = compile(&ts);
    assert!(out.diagnostics.is_empty());
    match &out.items[0] {
        OutputItem::Enum(e) => {
            assert_eq!(e.name, "Color");
            assert_eq!(e.decode(2), Some("Blue".to_string()));
            assert_eq!(e.decode(0), None);
        }
        other => panic!("unexpected item {:?}", other),
    }
    let no_base = vec![
        ident("Enum"),
        Token::FatArrow,
        ident("Color"),
        group(Delim::Brace, vec![ident("Red"), Token::Eq, int_lit("1")]),
    ];
    assert_eq!(parse_declaration(&no_base).unwrap_err(), CompileError::MissingEnumBase);
}

#[test]
fn compile_errors() {
    let out = compile(&vec![ident("Blob"), Token::FatArrow, ident("X")]);
    assert!(out.items.is_empty());
    assert_eq!(out.diagnostics.len(), 1);
    assert_eq!(out.diagnostics[0].severity, Severity::Error);
    assert_eq!(out.diagnostics[0].message, "Expected one of 'Table', 'Struct', 'Enum' or 'Union'");
    assert_eq!(compile(&vec![]).diagnostics[0].message, "Expected one of 'Table', 'Struct', 'Enum' or 'Union'");
    assert_eq!(
        parse_declaration(&vec![ident("Table"), Token::Colon]).unwrap_err(),
        CompileError::MissingSeparator
    );
    let err = parse_declaration(&vec![ident("Table"), Token::FatArrow]).unwrap_err();
    assert_eq!(err, CompileError::MissingName(ObjectType::Table));
    assert_eq!(err.message(), "Expected a name for the Table");
    assert_eq!(
        parse_declaration(&vec![ident("Table"), Token::FatArrow, ident("M")]).unwrap_err(),
        CompileError::MissingFieldList
    );
    assert_eq!(
        parse_declaration(&vec![ident("Union"), Token::FatArrow, ident("Any"), monster_fields()]).unwrap_err(),
        CompileError::InvalidFieldDef
    );
    let missing = vec![
        ident("Table"),
        Token::FatArrow,
        ident("Monster"),
        group(
            Delim::Bracket,
            vec![
                ident("field"),
                Token::FatArrow,
                group(Delim::Brace, clause(vec![kv("typeOf", vec![ident("pos")])])),
            ],
        ),
    ];
    let out = compile(&missing);
    assert!(out.items.is_empty());
    assert_eq!(out.diagnostics[0].message, "missing default, name, and slot");
    let decl = parse_declaration(&vec![ident("Table"), Token::FatArrow, ident("Monster"), monster_fields()]).unwrap();
    match decl.body {
        Body::Fields(fs) => assert_eq!(fs.len(), 2),
        Body::Enum(_) => panic!("expected fields"),
    }
}

#[test]
fn text_helpers() {
    assert_eq!(nth_word("  enum  Foo short ", 0), Some("enum".to_string()));
    assert_eq!(nth_word("  enum  Foo short ", 2), Some("short".to_string()));
    assert_eq!(nth_word("enum Foo", 2), None);
    assert_eq!(parse_natural("255", 255), Some(255));
    assert_eq!(parse_natural("256", 255), None);
    assert_eq!(parse_natural("", 255), None);
    assert_eq!(parse_natural("1a", 255), None);
    assert_eq!(parse_integer("-128", 200), Some(-128));
    let ts = vec![ident("enum"), ident("Color"), group(Delim::Bracket, vec![ident("byte")])];
    assert_eq!(render_tokens(&ts, 0, 3), "enum Color [byte]");
}

#[test]
fn compile_union() {
    let members = group(Delim::Brace, vec![ident("Weapon"), Token::Comma, ident("Armor")]);
    let ts = vec![ident("Union"), Token::FatArrow, ident("Equipment"), members];
    let out = compile(&ts);
    assert!(out.diagnostics.is_empty());
    match &out.items[0] {
        OutputItem::Enum(e) => {
            assert_eq!(e.name, "Equipment");
            assert_eq!(e.repr, "u8");
            assert_eq!(
                e.variants,
                vec![
                    EnumVariant { name: "NONE".to_string(), value: 0 },
                    EnumVariant { name: "Weapon".to_string(), value: 1 },
                    EnumVariant { name: "Armor".to_string(), value: 2 },
                ]
            );
            assert_eq!(e.decode(2), Some("Armor".to_string()));
            assert_eq!(e.decode(3), None);
        }
        other => panic!("unexpected item {:?}", other),
    }
}

#[test]
fn union_member_limit() {
    let many: Vec<String> = (0..256).map(|i| format!("T{}", i)).collect();
    assert_eq!(
        build_union("Big", &many).unwrap_err(),
        CompileError::InvalidEnumValue("T255".to_string())
    );
    let most: Vec<String> = (0..255).map(|i| format!("T{}", i)).collect();
    let e = build_union("Big", &most).unwrap();
    assert_eq!(e.decode(255), Some("T254".to_string()));
}

#[test]
fn negative_default_is_kept() {
    let ts = clause(vec![
        kv("name", vec![ident("delta")]),
        kv("typeOf", vec![ident("int")]),
        kv("slot", vec![int_lit("4")]),
        kv("default", vec![Token::Punct("-".to_string()), int_lit("1")]),
    ]);
    let f = parse_field_names(&ts, ObjectType::Table).unwrap();
    assert_eq!(f.default, "-1");
    let bad = clause(vec![
        kv("name", vec![ident("delta")]),
        kv("typeOf", vec![ident("int")]),
        kv("slot", vec![int_lit("4")]),
        kv("default", vec![Token::Punct("+".to_string()), int_lit("1")]),
    ]);
    assert_eq!(parse_field_names(&bad, ObjectType::Table).unwrap_err(), CompileError::InvalidFieldDef);
}

#[test]
fn field_list_entry_must_start_with_field() {
    let fields = group(
        Delim::Bracket,
        vec![
            ident("member"),
            Token::FatArrow,
            group(Delim::Brace, clause(vec![kv("name", vec![ident("x")])])),
        ],
    );
    let ts = vec![ident("Table"), Token::FatArrow, ident("T"), fields];
    let out = compile(&ts);
    assert!(out.items.is_empty());
    assert_eq!(out.diagnostics[0].message, "Expected field");
}

#[test]
fn field_list_trailing_comma() {
    let plain = vec![ident("Table"), Token::FatArrow, ident("Monster"), monster_fields()];
    let mut inner = match monster_fields() {
        Token::Group(_, v) => v,
        _ => unreachable!(),
    };
    inner.push(Token::Comma);
    let with_comma = vec![ident("Table"), Token::FatArrow, ident("Monster"), group(Delim::Bracket, inner)];
    let a = compile(&plain);
    let b = compile(&with_comma);
    assert!(b.diagnostics.is_empty());
    match (&a.items[0], &b.items[0]) {
        (OutputItem::Object { fields: fa, .. }, OutputItem::Object { fields: fb, .. }) => assert_eq!(fa, fb),
        _ => panic!("expected objects"),
    }
}
