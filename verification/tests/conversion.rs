use asn1_sql::convert::ToSqlModel;
use asn1_sql::ident::TYPENAME_LENGTH_LIMIT_PSQL;
use asn1_sql::model::{Definition, Import, Model};
use asn1_sql::rust::{
    Charset, DataVariant, EncodingOrdering, Field, Range, Rust, RustType, Size, Tag,
};
use asn1_sql::sql::{Action, Column, Constraint, Sql, SqlType, ToSql};

#[test]
fn test_conversion_too_long_name() {
    let chars_70_length =
        "TheQuickBrownFoxJumpsOverTheLazyDogTheQuickBrownFoxJumpsOverTheLazyDog";

    assert!(chars_70_length.chars().count() > TYPENAME_LENGTH_LIMIT_PSQL);

    assert_eq!(
        "TQBFoxJumpsOverTheLazyDogTheQuickBrownFoxJumpsOverTheLazyDog",
        &Model::<Sql>::sql_definition_name(chars_70_length)
    );

    assert_eq!(
        "THEQUICKBROWNFOXJUMPSOVERTHELAZYDOGTHEQUICKBROWNFOXJUMPSOVERTHE",
        &Model::<Sql>::sql_definition_name(&chars_70_length.to_ascii_uppercase())
    );

    assert_eq!(
        "TheQuickBrownFoxJumpsOverTheLazyDogTheQuickBrownFoxJumpsOverThe",
        &Model::<Sql>::sql_definition_name(&chars_70_length[..TYPENAME_LENGTH_LIMIT_PSQL])
    );
}

#[test]
fn test_conversion_struct() {
    let model = Model {
        name: "Manfred".into(),
        imports: vec![Import {
            what: vec!["a".into(), "b".into()],
            from: "to_be_ignored".into(),
            from_oid: None,
        }],
        definitions: vec![Definition(
            "Person".into(),
            Rust::struct_from_fields(vec![
                Field::from_name_type("name", RustType::String(Size::Any, Charset::Utf8)),
                Field::from_name_type("birth", RustType::Complex("City".into(), None)),
            ]),
        )],
        ..Default::default()
    }
    .to_sql();
    assert_eq!("Manfred", &model.name);
    assert!(model.imports.is_empty());
    assert_eq!(
        &vec![
            Definition(
                "Person".into(),
                Sql::Table(
                    vec![
                        Column {
                            name: "id".into(),
                            sql: SqlType::Serial,
                            primary_key: true
                        },
                        Column {
                            name: "name".into(),
                            sql: SqlType::NotNull(SqlType::Text.into()),
                            primary_key: false
                        },
                        Column {
                            name: "birth".into(),
                            sql: SqlType::NotNull(
                                SqlType::References(
                                    "City".into(),
                                    "id".into(),
                                    Some(Action::Cascade),
                                    Some(Action::Cascade),
                                )
                                .into()
                            ),
                            primary_key: false
                        },
                    ],
                    vec![]
                )
            ),
            Definition(
                "Person_Index_birth".to_string(),
                Sql::Index("Person".into(), vec!["birth".into()])
            ),
            Definition(
                "DelChilds_Person".into(),
                Sql::AbandonChildrenFunction(
                    "Person".into(),
                    vec![("birth".into(), "City".into(), "id".into())],
                )
            )
        ],
        &model.definitions
    );
}

#[test]
fn test_conversion_data_enum() {
    let model = Model {
        name: "Hurray".into(),
        imports: vec![Import {
            what: vec!["a".into(), "b".into()],
            from: "to_be_ignored".into(),
            from_oid: None,
        }],
        definitions: vec![Definition(
            "PersonState".into(),
            Rust::DataEnum(
                vec![
                    DataVariant::from_name_type(
                        "DeadSince",
                        RustType::String(Size::Any, Charset::Utf8),
                    ),
                    DataVariant::from_name_type(
                        "Alive",
                        RustType::Complex("Person".into(), Some(Tag::default_utf8_string())),
                    ),
                ]
                .into(),
            ),
        )],
        ..Default::default()
    }
    .to_sql();
    assert_eq!("Hurray", &model.name);
    assert!(model.imports.is_empty());
    assert_eq!(
        &vec![
            Definition(
                "PersonState".into(),
                Sql::Table(
                    vec![
                        Column {
                            name: "id".into(),
                            sql: SqlType::Serial,
                            primary_key: true
                        },
                        Column {
                            name: "dead_since".into(),
                            sql: SqlType::Text,
                            primary_key: false
                        },
                        Column {
                            name: "alive".into(),
                            sql: SqlType::References(
                                "Person".into(),
                                "id".into(),
                                Some(Action::Cascade),
                                Some(Action::Cascade),
                            ),
                            primary_key: false
                        },
                    ],
                    vec![Constraint::OneNotNull(vec![
                        "dead_since".into(),
                        "alive".into(),
                    ])]
                )
            ),
            Definition(
                "PersonState_Index_alive".to_string(),
                Sql::Index("PersonState".into(), vec!["alive".into()])
            ),
            Definition(
                "DelChilds_PersonState".into(),
                Sql::AbandonChildrenFunction(
                    "PersonState".into(),
                    vec![("alive".into(), "Person".into(), "id".into())],
                )
            )
        ],
        &model.definitions
    );
}

#[test]
fn test_conversion_enum() {
    let model = Model {
        name: "Alfred".into(),
        imports: vec![Import {
            what: vec!["a".into(), "b".into()],
            from: "to_be_ignored".into(),
            from_oid: None,
        }],
        definitions: vec![Definition(
            "City".into(),
            Rust::Enum(vec!["Esslingen".into(), "Stuttgart".into()].into()),
        )],
        ..Default::default()
    }
    .to_sql();
    assert_eq!("Alfred", &model.name);
    assert!(model.imports.is_empty());
    assert_eq!(
        &vec![
            Definition(
                "City".into(),
                Sql::Enum(vec!["Esslingen".into(), "Stuttgart".into(),],)
            ),
            Definition(
                "SilentlyPreventAnyDeleteOnCity".into(),
                Sql::SilentlyPreventAnyDelete("City".into())
            )
        ],
        &model.definitions
    );
}

#[test]
fn test_conversion_struct_with_vec() {
    let model = Model {
        name: "Bernhard".into(),
        imports: vec![],
        definitions: vec![Definition(
            "SomeStruct".into(),
            Rust::struct_from_fields(vec![
                Field::from_name_type(
                    "list_of_primitive",
                    RustType::Vec(
                        Box::new(RustType::String(Size::Any, Charset::Utf8)),
                        Size::Any,
                        EncodingOrdering::Keep,
                    ),
                ),
                Field::from_name_type(
                    "list_of_reference",
                    RustType::Vec(
                        Box::new(RustType::Complex(
                            "ComplexType".into(),
                            Some(Tag::default_utf8_string()),
                        )),
                        Size::Any,
                        EncodingOrdering::Keep,
                    ),
                ),
            ]),
        )],
        ..Default::default()
    }
    .to_sql();
    assert_eq!("Bernhard", &model.name);
    assert!(model.imports.is_empty());
    assert_eq!(
        &model.definitions,
        &vec![
            Definition(
                "SomeStruct".into(),
                Sql::Table(
                    vec![Column {
                        name: "id".into(),
                        sql: SqlType::Serial,
                        primary_key: true
                    }],
                    vec![],
                )
            ),
            Definition(
                "SomeStruct_ListOfPrimitive".into(),
                Sql::Table(
                    vec![
                        Column {
                            name: "list".into(),
                            sql: SqlType::References(
                                "SomeStruct".into(),
                                "id".into(),
                                Some(Action::Cascade),
                                Some(Action::Cascade),
                            )
                            .not_null(),
                            primary_key: false,
                        },
                        Column {
                            name: "value".into(),
                            sql: SqlType::Text.not_null(),
                            primary_key: false,
                        },
                    ],
                    vec![Constraint::CombinedPrimaryKey(vec![
                        "list".into(),
                        "value".into()
                    ])]
                )
            ),
            Definition(
                "SomeStruct_ListOfReference".into(),
                Sql::Table(
                    vec![
                        Column {
                            name: "list".into(),
                            sql: SqlType::References(
                                "SomeStruct".into(),
                                "id".into(),
                                Some(Action::Cascade),
                                Some(Action::Cascade),
                            )
                            .not_null(),
                            primary_key: false,
                        },
                        Column {
                            name: "value".into(),
                            sql: SqlType::References(
                                "ComplexType".into(),
                                "id".into(),
                                Some(Action::Cascade),
                                Some(Action::Cascade)
                            )
                            .not_null(),
                            primary_key: false,
                        },
                    ],
                    vec![Constraint::CombinedPrimaryKey(vec![
                        "list".into(),
                        "value".into()
                    ])]
                )
            ),
            Definition(
                "SomeStruct_ListOfPrimitive_Index_list".to_string(),
                Sql::Index("SomeStruct_ListOfPrimitive".into(), vec!["list".into()])
            ),
            Definition(
                "SomeStruct_ListOfPrimitive_Index_value".to_string(),
                Sql::Index("SomeStruct_ListOfPrimitive".into(), vec!["value".into()])
            ),
            Definition(
                "SomeStruct_ListOfReference_Index_list".to_string(),
                Sql::Index("SomeStruct_ListOfReference".into(), vec!["list".into()])
            ),
            Definition(
                "SomeStruct_ListOfReference_Index_value".to_string(),
                Sql::Index("SomeStruct_ListOfReference".into(), vec!["value".into()])
            ),
            Definition(
                "DelChilds_SomeStruct_ListOfReference".into(),
                Sql::AbandonChildrenFunction(
                    "SomeStruct_ListOfReference".into(),
                    vec![("value".into(), "ComplexType".into(), "id".into())]
                )
            )
        ],
    );
}

#[test]
fn test_conversion_tuple_struct() {
    let model = Model {
        name: "Hurray".into(),
        imports: vec![Import {
            what: vec!["a".into(), "b".into()],
            from: "to_be_ignored".into(),
            from_oid: None,
        }],
        definitions: vec![
            Definition(
                "Whatever".into(),
                Rust::tuple_struct_from_type(RustType::String(Size::Any, Charset::Utf8)),
            ),
            Definition(
                "Whatelse".into(),
                Rust::tuple_struct_from_type(RustType::Complex(
                    "Whatever".into(),
                    Some(Tag::default_utf8_string()),
                )),
            ),
        ],
        ..Default::default()
    }
    .to_sql();
    assert_eq!("Hurray", &model.name);
    assert!(model.imports.is_empty());
    assert_eq!(
        &vec![
            Definition(
                "Whatever".into(),
                Sql::Table(
                    vec![Column {
                        name: "id".into(),
                        sql: SqlType::Serial,
                        primary_key: true
                    },],
                    vec![]
                )
            ),
            Definition(
                "Whatelse".into(),
                Sql::Table(
                    vec![Column {
                        name: "id".into(),
                        sql: SqlType::Serial,
                        primary_key: true
                    },],
                    vec![]
                )
            ),
            Definition(
                "WhateverListEntry".into(),
                Sql::Table(
                    vec![
                        Column {
                            name: "list".into(),
                            sql: SqlType::NotNull(
                                SqlType::References(
                                    "Whatever".into(),
                                    "id".into(),
                                    Some(Action::Cascade),
                                    Some(Action::Cascade),
                                )
                                .into()
                            ),
                            primary_key: false
                        },
                        Column {
                            name: "value".into(),
                            sql: SqlType::NotNull(SqlType::Text.into()),
                            primary_key: false
                        },
                    ],
                    vec![Constraint::CombinedPrimaryKey(vec![
                        "list".into(),
                        "value".into()
                    ])]
                )
            ),
            Definition(
                "WhatelseListEntry".into(),
                Sql::Table(
                    vec![
                        Column {
                            name: "list".into(),
                            sql: SqlType::NotNull(
                                SqlType::References(
                                    "Whatelse".into(),
                                    "id".into(),
                                    Some(Action::Cascade),
                                    Some(Action::Cascade),
                                )
                                .into()
                            ),
                            primary_key: false
                        },
                        Column {
                            name: "value".into(),
                            sql: SqlType::NotNull(
                                SqlType::References(
                                    "Whatever".into(),
                                    "id".into(),
                                    Some(Action::Cascade),
                                    Some(Action::Cascade),
                                )
                                .into()
                            ),
                            primary_key: false
                        },
                    ],
                    vec![Constraint::CombinedPrimaryKey(vec![
                        "list".into(),
                        "value".into()
                    ])]
                )
            ),
            Definition(
                format!("WhateverListEntry_Index_{}", "list"),
                Sql::Index("WhateverListEntry".into(), vec!["list".into()])
            ),
            Definition(
                format!("WhateverListEntry_Index_{}", "value"),
                Sql::Index("WhateverListEntry".into(), vec!["value".into()])
            ),
            Definition(
                format!("WhatelseListEntry_Index_{}", "list"),
                Sql::Index("WhatelseListEntry".into(), vec!["list".into()])
            ),
            Definition(
                format!("WhatelseListEntry_Index_{}", "value"),
                Sql::Index("WhatelseListEntry".into(), vec!["value".into()])
            ),
            Definition(
                "DelChilds_WhatelseListEntry".into(),
                Sql::AbandonChildrenFunction(
                    "WhatelseListEntry".into(),
                    vec![("value".into(), "Whatever".into(), "id".into())],
                )
            )
        ],
        &model.definitions
    );
}

#[test]
fn test_conversion_on_first_level_name_clash() {
    let model = Model {
        name: "Alfred".into(),
        imports: vec![Import {
            what: vec!["a".into(), "b".into()],
            from: "to_be_ignored".into(),
            from_oid: None,
        }],
        definitions: vec![Definition(
            "City".into(),
            Rust::struct_from_fields(vec![Field::from_name_type(
                "id",
                RustType::String(Size::Any, Charset::Utf8),
            )]),
        )],
        ..Default::default()
    }
    .to_sql();
    assert_eq!("Alfred", &model.name);
    assert!(model.imports.is_empty());
    assert_eq!(
        &vec![Definition(
            "City".into(),
            Sql::Table(
                vec![
                    Column {
                        name: "id".into(),
                        sql: SqlType::Serial,
                        primary_key: true
                    },
                    Column {
                        name: "id_".into(),
                        sql: SqlType::NotNull(SqlType::Text.into()),
                        primary_key: false
                    },
                ],
                vec![]
            )
        ),],
        &model.definitions
    );
}

#[test]
fn test_rust_to_sql_to_rust() {
    assert_eq!(RustType::Bool.to_sql().to_rust(), RustType::Bool);
    assert_eq!(
        RustType::I8(Range::inclusive(0, i8::MAX)).to_sql().to_rust(),
        RustType::I16(Range::inclusive(0, i16::MAX))
    );
    assert_eq!(
        RustType::U8(Range::inclusive(0, u8::MAX)).to_sql().to_rust(),
        RustType::I16(Range::inclusive(0, i16::MAX))
    );
    assert_eq!(
        RustType::I16(Range::inclusive(0, i16::MAX)).to_sql().to_rust(),
        RustType::I16(Range::inclusive(0, i16::MAX))
    );
    assert_eq!(
        RustType::U16(Range::inclusive(0, i16::MAX as u16)).to_sql().to_rust(),
        RustType::I16(Range::inclusive(0, i16::MAX))
    );
    assert_eq!(
        RustType::U16(Range::inclusive(0, u16::MAX)).to_sql().to_rust(),
        RustType::I32(Range::inclusive(0, i32::MAX))
    );
    assert_eq!(
        RustType::I32(Range::inclusive(0, i32::MAX)).to_sql().to_rust(),
        RustType::I32(Range::inclusive(0, i32::MAX))
    );
    assert_eq!(
        RustType::U32(Range::inclusive(0, i32::MAX as u32)).to_sql().to_rust(),
        RustType::I32(Range::inclusive(0, i32::MAX))
    );
    assert_eq!(
        RustType::U32(Range::inclusive(0, u32::MAX)).to_sql().to_rust(),
        RustType::I64(Range::inclusive(0, i64::MAX))
    );
    assert_eq!(
        RustType::I64(Range::inclusive(0, i64::MAX)).to_sql().to_rust(),
        RustType::I64(Range::inclusive(0, i64::MAX))
    );
    assert_eq!(
        RustType::U64(Range::none()).to_sql().to_rust(),
        RustType::I64(Range::inclusive(0, i64::MAX))
    );
    assert_eq!(
        RustType::U64(Range::inclusive(Some(0), Some(u64::MAX))).to_sql().to_rust(),
        RustType::I64(Range::inclusive(0, i64::MAX))
    );

    assert_eq!(
        RustType::String(Size::Any, Charset::Utf8).to_sql().to_rust(),
        RustType::String(Size::Any, Charset::Utf8),
    );
    assert_eq!(
        RustType::VecU8(Size::Any).to_sql().to_rust(),
        RustType::VecU8(Size::Any)
    );
    assert_eq!(
        RustType::Vec(
            Box::new(RustType::String(Size::Any, Charset::Utf8)),
            Size::Any,
            EncodingOrdering::Keep
        )
        .to_sql()
        .to_rust(),
        RustType::Vec(
            Box::new(RustType::String(Size::Any, Charset::Utf8)),
            Size::Any,
            EncodingOrdering::Keep
        ),
    );
    assert_eq!(
        RustType::Option(Box::new(RustType::VecU8(Size::Any))).to_sql().to_rust(),
        RustType::Option(Box::new(RustType::VecU8(Size::Any))),
    );
    assert_eq!(
        RustType::Complex("MuchComplex".into(), None).to_sql().to_rust(),
        RustType::Complex("MuchComplex".into(), None),
    );
}

#[test]
fn test_sql_to_rust() {
    assert_eq!(
        SqlType::NotNull(SqlType::Serial.into()).to_rust(),
        RustType::I32(Range::inclusive(0, i32::MAX))
    );
}

#[test]
fn test_nullable() {
    assert_eq!(
        SqlType::NotNull(SqlType::Serial.into()).nullable(),
        SqlType::Serial
    );
    assert_eq!(SqlType::Serial.nullable(), SqlType::Serial);
}

#[test]
fn test_to_string() {
    assert_eq!("SMALLINT", &SqlType::SmallInt.to_string());
    assert_eq!("INTEGER", &SqlType::Integer.to_string());
    assert_eq!("BIGINT", &SqlType::BigInt.to_string());
    assert_eq!("SERIAL", &SqlType::Serial.to_string());
    assert_eq!("BOOLEAN", &SqlType::Boolean.to_string());
    assert_eq!("TEXT", &SqlType::Text.to_string());
    assert_eq!(
        "SMALLINT[]",
        &SqlType::Array(SqlType::SmallInt.into()).to_string()
    );
    assert_eq!(
        "TEXT NOT NULL",
        &SqlType::NotNull(SqlType::Text.into()).to_string()
    );
    assert_eq!(
        "INTEGER REFERENCES tablo(columno)",
        &SqlType::References("tablo".into(), "columno".into(), None, None).to_string()
    );
    assert_eq!(
        "INTEGER REFERENCES tablo(columno) ON DELETE CASCADE ON UPDATE RESTRICT",
        &SqlType::References(
            "tablo".into(),
            "columno".into(),
            Some(Action::Cascade),
            Some(Action::Restrict),
        )
        .to_string()
    );
    assert_eq!(
        "INTEGER REFERENCES table(column) NOT NULL",
        &SqlType::NotNull(
            SqlType::References("table".into(), "column".into(), None, None).into()
        )
        .to_string()
    );
    assert_eq!(
        "INTEGER REFERENCES table(column) ON DELETE RESTRICT ON UPDATE CASCADE NOT NULL",
        &SqlType::NotNull(
            SqlType::References(
                "table".into(),
                "column".into(),
                Some(Action::Restrict),
                Some(Action::Cascade),
            )
            .into()
        )
        .to_string()
    );
}
