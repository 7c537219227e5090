use asn1_sql::convert::ToSqlModel;
use asn1_sql::ident::{TYPENAME_LENGTH_LIMIT_PSQL, rust_module_name, rust_variant_name};
use asn1_sql::model::{Definition, Model};
use asn1_sql::rust::{Charset, DataVariant, Field, Range, Rust, RustType, Size};
use asn1_sql::sql::{Column, Constraint, Sql, SqlType, ToSql};

#[test]
fn round_trip_keeps_declared_range() {
    // A narrow unsigned range maps to a small integer and back to a signed
    // range containing it.
    let back = RustType::U16(Range::inclusive(5, 100)).to_sql().to_rust();
    assert_eq!(back, RustType::I16(Range::inclusive(0, i16::MAX)));
}

#[test]
fn optional_maps_nullable_and_plain_maps_not_null() {
    let nullable = RustType::Option(Box::new(RustType::String(Size::Any, Charset::Utf8)))
        .to_sql();
    assert_eq!(nullable, SqlType::Text);
    let not_null = RustType::String(Size::Any, Charset::Utf8).to_sql();
    assert_eq!(not_null, SqlType::NotNull(SqlType::Text.into()));
}

#[test]
fn optional_list_keeps_array_column() {
    // A list below an optional wrapper is not normalized away by the type
    // mapper: it maps to a nullable array column type.
    let sql = RustType::Option(Box::new(RustType::Vec(
        Box::new(RustType::U8(Range::inclusive(0, u8::MAX))),
        Size::Any,
        asn1_sql::rust::EncodingOrdering::Keep,
    )))
    .to_sql();
    assert_eq!(
        sql,
        SqlType::Array(Box::new(SqlType::NotNull(SqlType::SmallInt.into())))
    );
}

#[test]
fn data_enum_variant_named_id_suppresses_surrogate() {
    let model = Model {
        name: "M".into(),
        imports: vec![],
        definitions: vec![Definition(
            "Holder".into(),
            Rust::DataEnum(
                vec![
                    DataVariant::from_name_type(
                        "Id",
                        RustType::String(Size::Any, Charset::Utf8),
                    ),
                    DataVariant::from_name_type(
                        "Other",
                        RustType::String(Size::Any, Charset::Utf8),
                    ),
                ]
                .into(),
            ),
        )],
        ..Default::default()
    }
    .to_sql();
    assert_eq!(
        &model.definitions[0],
        &Definition(
            "Holder".into(),
            Sql::Table(
                vec![
                    Column {
                        name: "id_".into(),
                        sql: SqlType::Text,
                        primary_key: false
                    },
                    Column {
                        name: "other".into(),
                        sql: SqlType::Text,
                        primary_key: false
                    },
                ],
                vec![Constraint::OneNotNull(vec!["id".into(), "other".into()])]
            )
        )
    );
}

#[test]
fn mangling_is_idempotent_on_long_names() {
    let long = "TheQuickBrownFoxJumpsOverTheLazyDogTheQuickBrownFoxJumpsOverTheLazyDog";
    let once = Model::<Sql>::sql_definition_name(long);
    let twice = Model::<Sql>::sql_definition_name(&once);
    assert_eq!(once, twice);
    assert!(once.chars().count() <= TYPENAME_LENGTH_LIMIT_PSQL);
}

#[test]
fn mangling_all_lowercase_long_name_gives_empty() {
    // A name of only lowercase characters has nothing to retain: the scan
    // drops everything.
    let long: String = std::iter::repeat('a').take(70).collect();
    assert_eq!("", &Model::<Sql>::sql_definition_name(&long));
}

#[test]
fn referenced_definition_is_emitted_first() {
    // Person references City, so City gets the greater depth and is
    // declared before anything that references it.
    let model = Model {
        name: "M".into(),
        imports: vec![],
        definitions: vec![
            Definition(
                "Person".into(),
                Rust::struct_from_fields(vec![Field::from_name_type(
                    "birth",
                    RustType::Complex("City".into(), None),
                )]),
            ),
            Definition(
                "City".into(),
                Rust::Enum(vec!["Esslingen".into(), "Stuttgart".into()].into()),
            ),
        ],
        ..Default::default()
    }
    .to_sql();
    let names: Vec<&str> = model.definitions.iter().map(|d| d.0.as_str()).collect();
    assert_eq!(
        names,
        vec![
            "City",
            "Person",
            "Person_Index_birth",
            "DelChilds_Person",
            "SilentlyPreventAnyDeleteOnCity",
        ]
    );
}

#[test]
fn module_and_variant_names() {
    assert_eq!("dead_since", &rust_module_name("DeadSince"));
    assert_eq!("alive", &rust_module_name("Alive"));
    assert_eq!("a_b", &rust_module_name("a-b"));
    assert_eq!("ListOfPrimitive", &rust_variant_name("list_of_primitive"));
    assert_eq!(
        "SomeStruct_ListOfPrimitive",
        &Model::<Sql>::struct_list_entry_table_name("SomeStruct", "list_of_primitive")
    );
}

#[test]
fn column_name_only_trimmed_reserved_name_is_suffixed() {
    assert_eq!("id_", &Model::<Sql>::sql_column_name("id"));
    assert_eq!("id_", &Model::<Sql>::sql_column_name("ID"));
    assert_eq!(" id _", &Model::<Sql>::sql_column_name(" id "));
    assert_eq!("ident", &Model::<Sql>::sql_column_name("ident"));
}

#[test]
fn helper_predicates() {
    assert!(Model::<Sql>::has_no_column_in_embedded_struct(&RustType::Vec(
        Box::new(RustType::Bool),
        Size::Any,
        asn1_sql::rust::EncodingOrdering::Keep,
    )));
    assert!(!Model::<Sql>::has_no_column_in_embedded_struct(&RustType::Bool));
    assert!(Model::<Sql>::is_primitive(&RustType::String(Size::Any, Charset::Utf8)));
    assert!(Model::<Sql>::is_primitive(&RustType::Option(Box::new(RustType::Bool))));
    assert!(!Model::<Sql>::is_primitive(&RustType::Complex("X".into(), None)));
}

#[test]
fn empty_model_compiles_to_empty_schema() {
    let model = Model {
        name: "Empty".into(),
        imports: vec![],
        definitions: vec![],
        ..Default::default()
    }
    .to_sql();
    assert_eq!("Empty", &model.name);
    assert!(model.definitions.is_empty());
}

#[test]
fn defaulted_and_null_types_map_through() {
    // A defaulted wrapper maps like its inner type; the null type maps to
    // a nullable byte array.
    let defaulted = RustType::Default(Box::new(RustType::Bool)).to_sql();
    assert_eq!(defaulted, SqlType::NotNull(SqlType::Boolean.into()));
    let null = RustType::Null.to_sql();
    assert_eq!(null, SqlType::NullByteArray);
    assert_eq!("BYTEA", &null.to_string());
}
