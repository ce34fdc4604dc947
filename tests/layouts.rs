use borsh_layout::{Definition, Fields, Kind, Layout, SchemaContainer};

fn named(fields: &[(&str, &str)]) -> Definition {
    Definition::Struct {
        fields: Fields::NamedFields(
            fields.iter().map(|(n, t)| (n.to_string(), t.to_string())).collect(),
        ),
    }
}

fn unnamed(types: &[&str]) -> Definition {
    Definition::Struct {
        fields: Fields::UnnamedFields(types.iter().map(|t| t.to_string()).collect()),
    }
}

fn container(declaration: &str, definitions: Vec<(&str, Definition)>) -> SchemaContainer {
    SchemaContainer {
        declaration: declaration.to_string(),
        definitions: definitions.into_iter().map(|(n, d)| (n.to_string(), d)).collect(),
    }
}

fn random_struct_definitions() -> Vec<(&'static str, Definition)> {
    vec![
        ("RandomStruct", named(&[("field_a", "string"), ("field_b", "Option<Array<u8, 4>>")])),
        (
            "Option<Array<u8, 4>>",
            Definition::Enum {
                variants: vec![
                    ("None".to_string(), "nil".to_string()),
                    ("Some".to_string(), "Array<u8, 4>".to_string()),
                ],
            },
        ),
        ("Array<u8, 4>", Definition::Array { length: 4, elements: "u8".to_string() }),
    ]
}

fn test_enum_container() -> SchemaContainer {
    let variants = ["A", "B", "C", "D", "E", "F", "G"]
        .iter()
        .map(|v| (format!("Variant{}", v), format!("TestEnumVariant{}", v)))
        .collect();
    let mut definitions = vec![
        ("TestEnum", Definition::Enum { variants }),
        ("TestEnumVariantA", Definition::Struct { fields: Fields::Empty }),
        ("TestEnumVariantB", Definition::Struct { fields: Fields::Empty }),
        ("TestEnumVariantC", unnamed(&["u64"])),
        ("TestEnumVariantD", unnamed(&["Option<Pubkey>"])),
        ("TestEnumVariantE", unnamed(&["Option<u8>"])),
        ("TestEnumVariantF", unnamed(&["RandomStruct"])),
        (
            "TestEnumVariantG",
            named(&[
                ("hello", "Vec<u8>"),
                ("bello", "Array<Pubkey, 3>"),
                ("yello", "u16"),
                ("zello", "bool"),
            ]),
        ),
    ];
    definitions.extend(random_struct_definitions());
    container("TestEnum", definitions)
}

fn other_state_definitions() -> Vec<(&'static str, Definition)> {
    vec![("OtherState", named(&[("amount", "u64"), ("timestamp", "i64")]))]
}

#[test]
fn borsh_enums_generate_layout_from_this_file() {
    let random_struct_l =
        Layout::from_borsh_container(container("RandomStruct", random_struct_definitions()))
            .unwrap();

    assert_eq!(random_struct_l[0].name, "RandomStruct");

    let test_enum_l = Layout::from_borsh_container(test_enum_container()).unwrap();

    assert_eq!(test_enum_l[0].name, "TestEnum");
    assert_eq!(test_enum_l[1].name, "TestEnumVariantA");
    assert_eq!(test_enum_l[2].name, "TestEnumVariantB");
    assert_eq!(test_enum_l[3].name, "TestEnumVariantC");
    assert_eq!(test_enum_l[4].name, "TestEnumVariantD");
    assert_eq!(test_enum_l[5].name, "TestEnumVariantE");
    assert_eq!(test_enum_l[6].name, "TestEnumVariantF");
    assert_eq!(test_enum_l[7].name, "TestEnumVariantG");
}

#[test]
fn borsh_structs_generate_layout_from_this_file() {
    let other_state_l =
        Layout::from_borsh_container(container("OtherState", other_state_definitions())).unwrap();

    assert_eq!(other_state_l[0].name, "OtherState");

    let mut tuple_definitions = vec![("TupleStruct", unnamed(&["u8", "i32", "OtherState"]))];
    tuple_definitions.extend(other_state_definitions());
    let tuple_struct_l =
        Layout::from_borsh_container(container("TupleStruct", tuple_definitions)).unwrap();

    assert_eq!(tuple_struct_l[0].name, "TupleStruct");

    let mut test_definitions = vec![(
        "TestStruct",
        named(&[("field_a", "u64"), ("field_b", "u8"), ("field_c", "Option<Vec<OtherState>>")]),
    )];
    test_definitions.extend(other_state_definitions());
    let test_struct_l =
        Layout::from_borsh_container(container("TestStruct", test_definitions)).unwrap();

    assert_eq!(test_struct_l[0].name, "TestStruct");
    assert_eq!(test_struct_l[0].kind, Kind::Struct);
}
