use borsh_layout::{BorshType, LayoutField};

#[test]
fn simple_field_construction() {
    let field =
        LayoutField::from_declaration(Some(&"random_field".to_owned()), "u8", None).unwrap();

    assert_eq!(field.name, "randomField");
    assert_eq!(field.ty, BorshType::U8);
}

#[test]
fn complex_field_construction() {
    let field = LayoutField::from_declaration(
        Some(&"optional_accounts".to_owned()),
        "Array<Option<Pubkey>, 3>",
        None,
    )
    .unwrap();

    assert_eq!(field.name, "optionalAccounts");
    assert_eq!(
        field.ty,
        BorshType::FixedArray(Box::new(BorshType::Option(Box::new(BorshType::Pubkey))), 3)
    );
}

#[test]
fn simple_field_to_borsh_schema() {
    let field = LayoutField {
        name: "someRandomString".to_owned(),
        ty: BorshType::String,
    };

    assert_eq!(field.to_borsh_schema(), "['someRandomString', 'string']");

    let field = LayoutField {
        name: "myCustomType".to_owned(),
        ty: BorshType::Custom("aCustomType".to_owned()),
    };

    assert_eq!(field.to_borsh_schema(), "['myCustomType', aCustomType]");
}

#[test]
fn field_to_ts_class_field() {
    let field = LayoutField {
        name: "fieldAlpha".to_owned(),
        ty: BorshType::U64,
    };
    assert_eq!(field.to_class_field(), "fieldAlpha: BN");
    let field = LayoutField {
        name: "fieldBeta".to_owned(),
        ty: BorshType::Vec(Box::new(BorshType::String)),
    };
    assert_eq!(field.to_class_field(), "fieldBeta: string[]");
    let field = LayoutField {
        name: "fieldGamma".to_owned(),
        ty: BorshType::Option(Box::new(BorshType::FixedBytes(32))),
    };
    assert_eq!(field.to_class_field(), "fieldGamma: [32] | null");
}
