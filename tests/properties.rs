use borsh_layout::{
    generate_schema_text, render_output, split_top_level, BorshType, BuildError, Definition,
    Fault, FieldError, Fields, Kind, Layout, LayoutField, SchemaContainer, Wrapper,
    LIB_PREAMBLE,
};

fn chars(s: &str) -> Vec<char> {
    s.chars().collect()
}

fn text(v: &[char]) -> String {
    v.iter().collect()
}

fn named(fields: &[(&str, &str)]) -> Definition {
    Definition::Struct {
        fields: Fields::NamedFields(
            fields.iter().map(|(n, t)| (n.to_string(), t.to_string())).collect(),
        ),
    }
}

fn unnamed(types: &[&str]) -> Definition {
    Definition::Struct {
        fields: Fields::UnnamedFields(types.iter().map(|t| t.to_string()).collect()),
    }
}

fn container(declaration: &str, definitions: Vec<(&str, Definition)>) -> SchemaContainer {
    SchemaContainer {
        declaration: declaration.to_string(),
        definitions: definitions.into_iter().map(|(n, d)| (n.to_string(), d)).collect(),
    }
}

fn enum_e() -> SchemaContainer {
    container(
        "E",
        vec![
            (
                "E",
                Definition::Enum {
                    variants: vec![
                        ("A".to_string(), "EA".to_string()),
                        ("B".to_string(), "EB".to_string()),
                        ("C".to_string(), "EC".to_string()),
                    ],
                },
            ),
            ("EA", Definition::Struct { fields: Fields::Empty }),
            ("EB", unnamed(&["u64"])),
            ("EC", named(&[("x", "bool")])),
        ],
    )
}

#[test]
fn scalar_aliases_parse_alike() {
    let pairs = [
        ("u8", "i8"),
        ("u16", "i16"),
        ("u32", "i32"),
        ("u64", "i64"),
        ("u64", "UnixTimestamp"),
        ("u128", "i128"),
        ("String", "string"),
    ];
    for (a, b) in pairs {
        assert_eq!(BorshType::from_str(a).unwrap(), BorshType::from_str(b).unwrap());
    }
    assert_eq!(BorshType::from_str("UnixTimestamp").unwrap(), BorshType::U64);
}

#[test]
fn renderings_depend_on_structure_only() {
    let a = BorshType::from_str("HashMap<String, Vec<[u16; 3]>>").unwrap();
    let b = BorshType::from_str("HashMap< string , Vec< [i16;3] > >").unwrap();
    assert_eq!(a, b);
    let a_class_first = a.to_class_type();
    let b_schema_first = b.to_borsh_schema();
    assert_eq!(a.to_borsh_schema(), b_schema_first);
    assert_eq!(b.to_class_type(), a_class_first);
    assert_eq!(a_class_first, "Map<string, number[][]>");
    assert_eq!(b_schema_first, "{ kind: 'map', key: 'string', value: [['u16', 3]] }");
}

#[test]
fn nested_wrappers_parse() {
    assert_eq!(
        BorshType::from_str("Vec<Option<[Pubkey; 2]>>").unwrap(),
        BorshType::Vec(Box::new(BorshType::Option(Box::new(BorshType::FixedArray(
            Box::new(BorshType::Pubkey),
            2
        )))))
    );
    assert_eq!(
        BorshType::from_str("HashMap<Array<u8,32>,OpaqueRef>").unwrap(),
        BorshType::HashMap(
            Box::new(BorshType::FixedBytes(32)),
            Box::new(BorshType::Custom("OpaqueRef".to_owned()))
        )
    );
}

#[test]
fn byte_arrays_collapse() {
    assert_eq!(BorshType::from_str("[u8; 32]").unwrap(), BorshType::FixedBytes(32));
    assert_eq!(BorshType::from_str("Array<u8,32>").unwrap(), BorshType::FixedBytes(32));
    assert_eq!(BorshType::from_str("[i8; 0]").unwrap(), BorshType::FixedBytes(0));
    assert_eq!(
        BorshType::from_str("[u16; 32]").unwrap(),
        BorshType::FixedArray(Box::new(BorshType::U16), 32)
    );
}

#[test]
fn unknown_name_is_custom() {
    assert_eq!(
        BorshType::from_str("SomeUndeclaredType").unwrap(),
        BorshType::Custom("SomeUndeclaredType".to_owned())
    );
    assert_eq!(BorshType::from_str("").unwrap(), BorshType::Custom(String::new()));
    assert_eq!(
        BorshType::from_str(" Some Type ").unwrap(),
        BorshType::Custom("SomeType".to_owned())
    );
}

#[test]
fn array_without_length_fails() {
    let err = BorshType::from_str("Array<u8>").unwrap_err();
    assert_eq!(err.wrapper, Wrapper::Array);
    assert_eq!(err.fault, Fault::MissingSeparator);
    assert_eq!(err.text, "Array<u8>");
}

#[test]
fn malformed_wrappers_fail() {
    let err = BorshType::from_str("Option<u8").unwrap_err();
    assert_eq!((err.wrapper, err.fault), (Wrapper::Option, Fault::MissingClose));
    assert_eq!(err.text, "Option<u8");
    let err = BorshType::from_str("Vec<").unwrap_err();
    assert_eq!((err.wrapper, err.fault), (Wrapper::Vec, Fault::MissingClose));
    let err = BorshType::from_str("VecDeque<u8]").unwrap_err();
    assert_eq!((err.wrapper, err.fault), (Wrapper::VecDeque, Fault::MissingClose));
    let err = BorshType::from_str("[u8; 32").unwrap_err();
    assert_eq!((err.wrapper, err.fault), (Wrapper::BracketArray, Fault::MissingClose));
    let err = BorshType::from_str("[u8 32]").unwrap_err();
    assert_eq!((err.wrapper, err.fault), (Wrapper::BracketArray, Fault::MissingSeparator));
    let err = BorshType::from_str("Array<u8, 32").unwrap_err();
    assert_eq!((err.wrapper, err.fault), (Wrapper::Array, Fault::MissingClose));
    let err = BorshType::from_str("HashMap<u8, u16").unwrap_err();
    assert_eq!((err.wrapper, err.fault), (Wrapper::HashMap, Fault::MissingClose));
}

#[test]
fn array_lengths_follow_unsigned_parsing() {
    let err = BorshType::from_str("[u8; x]").unwrap_err();
    assert_eq!((err.wrapper, err.fault), (Wrapper::BracketArray, Fault::BadLength));
    assert_eq!(err.text, "x");
    let err = BorshType::from_str("Array<u8, -1>").unwrap_err();
    assert_eq!((err.wrapper, err.fault), (Wrapper::Array, Fault::BadLength));
    assert_eq!(err.text, "-1");
    let err = BorshType::from_str("[u8; ]").unwrap_err();
    assert_eq!(err.fault, Fault::BadLength);
    let err = BorshType::from_str("[u8; +]").unwrap_err();
    assert_eq!(err.fault, Fault::BadLength);
    let err = BorshType::from_str("[u8; 99999999999999999999999]").unwrap_err();
    assert_eq!(err.fault, Fault::BadLength);
    assert_eq!(BorshType::from_str("[u8; +7]").unwrap(), BorshType::FixedBytes(7));
    let max = format!("[u8; {}]", usize::MAX);
    assert_eq!(BorshType::from_str(&max).unwrap(), BorshType::FixedBytes(usize::MAX));
    let err = BorshType::from_str("[Option<u8; 2]").unwrap_err();
    assert_eq!((err.wrapper, err.fault), (Wrapper::Option, Fault::MissingClose));
}

#[test]
fn map_needs_two_balanced_arguments() {
    for bad in ["HashMap<u8>", "HashMap<u8,u16,u32>", "HashMap<Vec<u8,u16>", "HashMap<,u8>", "HashMap<u8,>", "HashMap<u8],[u16>"] {
        let err = BorshType::from_str(bad).unwrap_err();
        assert_eq!((err.wrapper, err.fault), (Wrapper::HashMap, Fault::BadArguments), "{}", bad);
    }
    assert_eq!(
        BorshType::from_str("HashMap<(u8,u16),u32>").unwrap(),
        BorshType::HashMap(
            Box::new(BorshType::Custom("(u8,u16)".to_owned())),
            Box::new(BorshType::U32)
        )
    );
}

#[test]
fn splitter_ignores_nested_commas() {
    let (k, v) = split_top_level(&chars("Array<u8,32>,Pubkey")).unwrap();
    assert_eq!(text(&k), "Array<u8,32>");
    assert_eq!(text(&v), "Pubkey");
    let (k, v) = split_top_level(&chars("[u8;2],HashMap<a,b>")).unwrap();
    assert_eq!(text(&k), "[u8;2]");
    assert_eq!(text(&v), "HashMap<a,b>");
    assert!(split_top_level(&chars("a")).is_none());
    assert!(split_top_level(&chars("a>,b<")).is_none());
    assert!(split_top_level(&chars("a,b,c")).is_none());
}

#[test]
fn number_rendering() {
    let ty = BorshType::from_str("[bool; 1203]").unwrap();
    assert_eq!(ty.to_borsh_schema(), "['u8', 1203]");
    assert_eq!(ty.to_class_type(), "boolean[]");
    assert_eq!(BorshType::FixedBytes(0).to_class_type(), "[0]");
    assert_eq!(BorshType::FixedBytes(10).to_borsh_schema(), "[10]");
    assert_eq!(BorshType::U128.to_class_type(), "BN");
}

#[test]
fn positional_and_marker_fields() {
    let field = LayoutField::from_declaration(None, "i64", Some(12)).unwrap();
    assert_eq!(field.name, "unnamed_12");
    assert_eq!(field.ty, BorshType::U64);
    let err = LayoutField::from_declaration(None, "u8", None).unwrap_err();
    assert!(matches!(err, FieldError::MissingIndex));
    let err = LayoutField::from_declaration(Some("a_b"), "Vec<u8", None).unwrap_err();
    assert!(matches!(err, FieldError::Syntax(e) if e.wrapper == Wrapper::Vec));
    let marker = LayoutField::from_enum_variant("TestEnumVariantA").unwrap();
    assert_eq!(marker.name, "TestEnumVariantA");
    assert_eq!(marker.ty, BorshType::Custom("TestEnumVariantA".to_owned()));
    let field = LayoutField::from_declaration(Some("MixedUP snake_case"), "u8", None).unwrap();
    assert_eq!(field.name, "mixedUpSnakeCase");
}

#[test]
fn struct_fields_keep_order() {
    let graph = container("S", vec![("S", named(&[("c_c", "u8"), ("a", "u16"), ("b", "u32")]))]);
    let layouts = Layout::from_borsh_container(graph).unwrap();
    assert_eq!(layouts.len(), 1);
    assert_eq!(layouts[0].kind, Kind::Struct);
    let names: Vec<&str> = layouts[0].fields.iter().map(|f| f.name.as_str()).collect();
    assert_eq!(names, ["cC", "a", "b"]);
    assert_eq!(layouts[0].fields[2].ty, BorshType::U32);
}

#[test]
fn enum_flattening() {
    let layouts = Layout::from_borsh_container(enum_e()).unwrap();
    assert_eq!(layouts.len(), 4);
    assert_eq!((layouts[0].name.as_str(), layouts[0].kind), ("E", Kind::Enum));
    let markers: Vec<&str> = layouts[0].fields.iter().map(|f| f.name.as_str()).collect();
    assert_eq!(markers, ["EA", "EB", "EC"]);
    assert_eq!(layouts[0].fields[1].ty, BorshType::Custom("EB".to_owned()));
    assert_eq!((layouts[1].name.as_str(), layouts[1].kind), ("EA", Kind::Struct));
    assert!(layouts[1].fields.is_empty());
    assert_eq!((layouts[2].name.as_str(), layouts[2].kind), ("EB", Kind::Struct));
    assert_eq!(layouts[2].fields.len(), 1);
    assert_eq!(layouts[2].fields[0].name, "unnamed_0");
    assert_eq!(layouts[2].fields[0].ty, BorshType::U64);
    assert_eq!((layouts[3].name.as_str(), layouts[3].kind), ("EC", Kind::Struct));
    assert_eq!(layouts[3].fields.len(), 1);
    assert_eq!(layouts[3].fields[0].name, "x");
    assert_eq!(layouts[3].fields[0].ty, BorshType::Bool);
}

#[test]
fn build_errors() {
    let err = Layout::from_borsh_container(container("Nope", vec![])).unwrap_err();
    assert!(matches!(err, BuildError::MissingDefinition(n) if n == "Nope"));
    let graph = container(
        "Vec<u8>",
        vec![("Vec<u8>", Definition::Sequence { elements: "u8".to_string() })],
    );
    let err = Layout::from_borsh_container(graph).unwrap_err();
    assert!(matches!(err, BuildError::UnsupportedShape(n) if n == "Vec<u8>"));
    let graph = container(
        "E",
        vec![
            ("E", Definition::Enum { variants: vec![("A".to_string(), "EA".to_string())] }),
            ("EA", Definition::Enum { variants: vec![] }),
        ],
    );
    let err = Layout::from_borsh_container(graph).unwrap_err();
    assert!(matches!(err, BuildError::UnsupportedShape(n) if n == "EA"));
    let graph = container(
        "E",
        vec![("E", Definition::Enum { variants: vec![("A".to_string(), "EA".to_string())] })],
    );
    let err = Layout::from_borsh_container(graph).unwrap_err();
    assert!(matches!(err, BuildError::MissingDefinition(n) if n == "EA"));
    let graph = container("S", vec![("S", named(&[("a", "u8"), ("b", "[u8; x]"), ("c", "Vec<")]))]);
    let err = Layout::from_borsh_container(graph).unwrap_err();
    assert!(matches!(err, BuildError::Field(FieldError::Syntax(e)) if e.fault == Fault::BadLength));
}

#[test]
fn first_definition_wins() {
    let graph = container("S", vec![("S", unnamed(&["u8"])), ("S", unnamed(&["u16", "u32"]))]);
    let layouts = Layout::from_borsh_container(graph).unwrap();
    assert_eq!(layouts[0].fields.len(), 1);
    assert_eq!(layouts[0].fields[0].ty, BorshType::U8);
}

#[test]
fn layout_rendering() {
    let layouts = Layout::from_borsh_container(enum_e()).unwrap();
    assert_eq!(
        layouts[0].to_borsh_schema(),
        "\n  [E, { kind: 'enum', field: 'enum', values: [['EA', EA], ['EB', EB], ['EC', EC]] }],"
    );
    assert_eq!(
        layouts[0].to_ts_class(),
        "export class E extends Enum {\n  EA: EA;\n  EB: EB;\n  EC: EC;\n}\n\n"
    );
    assert_eq!(layouts[1].to_borsh_schema(), "\n  [EA, { kind: 'struct', fields: [] }],");
    assert_eq!(layouts[1].to_ts_class(), "export class EA extends Struct {\n}\n\n");
    assert_eq!(
        layouts[3].to_borsh_schema(),
        "\n  [EC, { kind: 'struct', fields: [['x', 'u8']] }],"
    );
    assert_eq!(layouts[3].to_ts_class(), "export class EC extends Struct {\n  x: boolean;\n}\n\n");
}

#[test]
fn skipped_fields_are_not_emitted() {
    let layout = Layout {
        name: "S".to_owned(),
        kind: Kind::Struct,
        fields: vec![
            LayoutField { name: "a".to_owned(), ty: BorshType::U8 },
            LayoutField { name: "gone".to_owned(), ty: BorshType::Skip },
            LayoutField { name: "b".to_owned(), ty: BorshType::String },
        ],
    };
    assert!(layout.fields[1].should_skip());
    assert!(!layout.fields[0].should_skip());
    assert!(layout.can_render());
    assert_eq!(
        layout.to_borsh_schema(),
        "\n  [S, { kind: 'struct', fields: [['a', 'u8'], ['b', 'string']] }],"
    );
    assert_eq!(layout.to_ts_class(), "export class S extends Struct {\n  a: number;\n  b: string;\n}\n\n");
    let broken = Layout {
        name: "T".to_owned(),
        kind: Kind::Struct,
        fields: vec![LayoutField { name: "v".to_owned(), ty: BorshType::Vec(Box::new(BorshType::Skip)) }],
    };
    assert!(!broken.can_render());
    assert!(!BorshType::Option(Box::new(BorshType::Skip)).has_rendering());
}

#[test]
fn generation_is_repeatable() {
    let graphs = vec![enum_e(), container("S", vec![("S", named(&[("a_b", "u64")]))])];
    let first = generate_schema_text(&graphs).unwrap();
    let second = generate_schema_text(&graphs).unwrap();
    assert_eq!(first, second);
    let expected = format!(
        "{}{}{}{}",
        LIB_PREAMBLE,
        "export class E extends Enum {\n  EA: EA;\n  EB: EB;\n  EC: EC;\n}\n\n\
         export class EA extends Struct {\n}\n\n\
         export class EB extends Struct {\n  unnamed_0: BN;\n}\n\n\
         export class EC extends Struct {\n  x: boolean;\n}\n\n\
         export class S extends Struct {\n  aB: BN;\n}\n\n",
        "export const SCHEMA = new Map<any, any>([\
         \n  [E, { kind: 'enum', field: 'enum', values: [['EA', EA], ['EB', EB], ['EC', EC]] }],\
         \n  [EA, { kind: 'struct', fields: [] }],\
         \n  [EB, { kind: 'struct', fields: [['unnamed_0', 'u64']] }],\
         \n  [EC, { kind: 'struct', fields: [['x', 'u8']] }],\
         \n  [S, { kind: 'struct', fields: [['aB', 'u64']] }],",
        "\n]);"
    );
    assert_eq!(first, expected);
    let layouts = Layout::from_borsh_container(enum_e()).unwrap();
    assert!(render_output(&layouts).starts_with(LIB_PREAMBLE));
}

#[test]
fn generation_stops_at_the_first_error() {
    let graphs = vec![container("Missing", vec![]), enum_e()];
    let err = generate_schema_text(&graphs).unwrap_err();
    assert!(matches!(err, BuildError::MissingDefinition(n) if n == "Missing"));
    assert!(generate_schema_text(&vec![]).unwrap().ends_with("export const SCHEMA = new Map<any, any>([\n]);"));
}
