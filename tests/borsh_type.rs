use borsh_layout::BorshType;

#[test]
fn simple_type_from_str() {
    assert_eq!(BorshType::from_str("bool").unwrap(), BorshType::Bool);
    assert_eq!(BorshType::from_str("u8").unwrap(), BorshType::U8);
    assert_eq!(BorshType::from_str("i8").unwrap(), BorshType::U8);
    assert_eq!(BorshType::from_str("u16").unwrap(), BorshType::U16);
    assert_eq!(BorshType::from_str("i16").unwrap(), BorshType::U16);
    assert_eq!(BorshType::from_str("u32").unwrap(), BorshType::U32);
    assert_eq!(BorshType::from_str("i32").unwrap(), BorshType::U32);
    assert_eq!(BorshType::from_str("u64").unwrap(), BorshType::U64);
    assert_eq!(BorshType::from_str("i64").unwrap(), BorshType::U64);
    assert_eq!(BorshType::from_str("u128").unwrap(), BorshType::U128);
    assert_eq!(BorshType::from_str("i128").unwrap(), BorshType::U128);
    assert_eq!(BorshType::from_str("String").unwrap(), BorshType::String);
    assert_eq!(BorshType::from_str("Pubkey").unwrap(), BorshType::Pubkey);
    assert_eq!(
        BorshType::from_str("SomeTestStruct").unwrap(),
        BorshType::Custom("SomeTestStruct".to_owned())
    );
}

#[test]
fn complex_type_from_str() {
    assert_eq!(
        BorshType::from_str("Vec<u8>").unwrap(),
        BorshType::Vec(Box::new(BorshType::U8))
    );
    assert_eq!(
        BorshType::from_str("VecDeque<u64>").unwrap(),
        BorshType::Vec(Box::new(BorshType::U64))
    );
    assert_eq!(
        BorshType::from_str("Option<u64>").unwrap(),
        BorshType::Option(Box::new(BorshType::U64))
    );
    assert_eq!(
        BorshType::from_str("Vec<Option<[Pubkey; 2]>>").unwrap(),
        BorshType::Vec(Box::new(BorshType::Option(Box::new(
            BorshType::FixedArray(Box::new(BorshType::Pubkey), 2)
        ))))
    );
    assert_eq!(
        BorshType::from_str("[[Option<i32>; 2]; 4]").unwrap(),
        BorshType::FixedArray(
            Box::new(BorshType::FixedArray(
                Box::new(BorshType::Option(Box::new(BorshType::U32))),
                2
            )),
            4
        )
    );

    assert_eq!(
        BorshType::from_str("Option<Vec<OtherStruct>>").unwrap(),
        BorshType::Option(Box::new(BorshType::Vec(Box::new(BorshType::Custom(
            "OtherStruct".to_owned()
        )))))
    );

    assert_eq!(
        BorshType::from_str("[u8; 32]").unwrap(),
        BorshType::FixedBytes(32),
    );
}

#[test]
fn simple_type_to_borsh() {
    assert_eq!(BorshType::Bool.to_borsh_schema(), "'u8'");
    assert_eq!(BorshType::U8.to_borsh_schema(), "'u8'");
    assert_eq!(BorshType::U16.to_borsh_schema(), "'u16'");
    assert_eq!(BorshType::U32.to_borsh_schema(), "'u32'");
    assert_eq!(BorshType::U64.to_borsh_schema(), "'u64'");
    assert_eq!(BorshType::U128.to_borsh_schema(), "'u128'");
    assert_eq!(BorshType::String.to_borsh_schema(), "'string'");
    assert_eq!(BorshType::Pubkey.to_borsh_schema(), "'publicKeyHack'");
}

#[test]
fn complex_type_to_borsh() {
    assert_eq!(BorshType::FixedBytes(32).to_borsh_schema(), "[32]",);
    assert_eq!(
        BorshType::Vec(Box::new(BorshType::U64)).to_borsh_schema(),
        "['u64']"
    );
    assert_eq!(
        BorshType::from_str("Option<Vec<OtherStruct>>")
            .unwrap()
            .to_borsh_schema(),
        "{ kind: 'option', type: [OtherStruct] }"
    );

    assert_eq!(
        BorshType::from_str("[[Option<i32>; 2]; 4]")
            .unwrap()
            .to_borsh_schema(),
        "[[{ kind: 'option', type: 'u32' }, 2], 4]"
    );

    assert_eq!(
        BorshType::from_str("HashMap<[u8; 32], Pubkey>")
            .unwrap()
            .to_borsh_schema(),
        "{ kind: 'map', key: [32], value: 'publicKeyHack' }"
    );
    assert_eq!(
        BorshType::from_str("HashMap<Array<u8, 32>, Pubkey>")
            .unwrap()
            .to_borsh_schema(),
        "{ kind: 'map', key: [32], value: 'publicKeyHack' }"
    );
    assert_eq!(
        BorshType::from_str("HashMap<string, Option<u32>>")
            .unwrap()
            .to_borsh_schema(),
        "{ kind: 'map', key: 'string', value: { kind: 'option', type: 'u32' } }"
    );
}

#[test]
fn types_to_ts() {
    let ty = BorshType::from_str("u64").unwrap();
    assert_eq!(ty.to_class_type(), "BN");
    let ty = BorshType::from_str("Option<Vec<Pubkey>>").unwrap();
    assert_eq!(ty.to_class_type(), "PublicKey[] | null");
    let ty = BorshType::from_str("[bool; 5]").unwrap();
    assert_eq!(ty.to_class_type(), "boolean[]");
    let ty = BorshType::from_str("HashMap<[u8; 32], PublicKey>").unwrap();
    assert_eq!(ty.to_class_type(), "Map<[32], PublicKey>");
}
