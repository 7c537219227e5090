//! The schema compiler: per-variant table synthesis, auxiliary object
//! generation, and the dependency-ordered emission of the whole model.

use vstd::prelude::*;

use crate::ident::{
    collides_with_reserved_key, mangle_definition_name, matches_reserved_key, push_char,
    rust_module_name, rust_variant_name, spec_column_name_of, spec_definition_name,
    spec_module_name, spec_variant_name,
};
use crate::model::{Definition, DefinitionV, Model, ModelV};
use crate::order::{
    DepthMap, dm_bounded, lemma_walk_names_snoc, spec_bucket, spec_buckets_desc, spec_depth_of,
    spec_depths_upto, spec_find_def, spec_find_from, spec_ref_names, spec_ref_names_cols,
    spec_sorted, spec_walk, spec_walk_names, walk_budget,
};
use crate::rust::{
    DataEnum, DataVariantV, Field, FieldV, PlainEnum, Rust, RustType, RustTypeV, RustV,
    spec_inner_type, spec_is_scalar, spec_is_vec,
};
use crate::sql::{
    Action, Column, ColumnV, Constraint, ConstraintV, Sql, SqlType, SqlTypeV, SqlV, ToSql,
    fk_column_str, spec_fk_column, spec_nullable, spec_to_sql,
};

verus! {

/// The mathematical model of a sequence of schema definitions.
pub open spec fn sql_defs_view(s: Seq<Definition<Sql>>) -> Seq<DefinitionV<SqlV>> {
    s.map_values(|d: Definition<Sql>| d@)
}

/// The synthesized surrogate-key column: an auto-incrementing primary key
/// under the reserved name.
pub open spec fn spec_id_column() -> ColumnV {
    ColumnV { name: spec_fk_column(), sql: SqlTypeV::Serial, primary_key: true }
}

/// The name of the index over one column of a table.
pub open spec fn spec_index_name(table: Seq<char>, column: Seq<char>) -> Seq<char> {
    spec_definition_name(table + "_Index_"@ + column)
}

/// The index definition over one column of a table.
pub open spec fn spec_index_def(table: Seq<char>, column: Seq<char>) -> DefinitionV<SqlV> {
    DefinitionV {
        name: spec_index_name(table, column),
        value: SqlV::Index(table, seq![column]),
    }
}

/// The integrity-maintenance function that severs the listed foreign-key
/// children of a table.
pub open spec fn spec_abandon_def(
    table: Seq<char>,
    children: Seq<(Seq<char>, Seq<char>, Seq<char>)>,
) -> DefinitionV<SqlV> {
    DefinitionV {
        name: spec_definition_name("DelChilds_"@ + table),
        value: SqlV::AbandonChildrenFunction(table, children),
    }
}

/// The delete-prevention guard of an enumeration definition.
pub open spec fn spec_prevent_def(name: Seq<char>) -> DefinitionV<SqlV> {
    DefinitionV {
        name: spec_definition_name("SilentlyPreventAnyDeleteOn"@ + name),
        value: SqlV::SilentlyPreventAnyDelete(name),
    }
}

/// The name of the join table normalizing a repeated-value struct field.
pub open spec fn spec_struct_list_entry_table_name(
    table: Seq<char>,
    field: Seq<char>,
) -> Seq<char> {
    spec_definition_name(table + "_"@ + spec_variant_name(field))
}

/// The definitions synthesized for one repeated-value field: a two-column
/// join table whose columns form a composite primary key, an index on each
/// of the two columns, and, when the element type is itself a foreign key,
/// a cascade guard targeting the referenced table.
pub open spec fn spec_list_table_defs(
    owner: Seq<char>,
    entry: Seq<char>,
    value_sql: SqlTypeV,
) -> Seq<DefinitionV<SqlV>> {
    let table = DefinitionV {
        name: entry,
        value: SqlV::Table(
            seq![
                ColumnV {
                    name: "list"@,
                    sql: SqlTypeV::NotNull(
                        Box::new(
                            SqlTypeV::References(
                                owner,
                                spec_fk_column(),
                                Some(Action::Cascade),
                                Some(Action::Cascade),
                            ),
                        ),
                    ),
                    primary_key: false,
                },
                ColumnV { name: "value"@, sql: value_sql, primary_key: false },
            ],
            seq![ConstraintV::CombinedPrimaryKey(seq!["list"@, "value"@])],
        ),
    };
    let base = seq![table, spec_index_def(entry, "list"@), spec_index_def(entry, "value"@)];
    match spec_nullable(value_sql) {
        SqlTypeV::References(other_table, other_column, _, _) => base + seq![
            spec_abandon_def(entry, seq![("value"@, other_table, other_column)]),
        ],
        _ => base,
    }
}

/// The columns of a struct table: one per field, in declared order, except
/// that repeated-value fields contribute none.
pub open spec fn spec_struct_columns(fields: Seq<FieldV>) -> Seq<ColumnV>
    decreases fields.len(),
{
    if fields.len() == 0 {
        Seq::empty()
    } else {
        let prev = spec_struct_columns(fields.drop_last());
        let f = fields.last();
        if spec_is_vec(f.ty) {
            prev
        } else {
            prev + seq![
                ColumnV {
                    name: spec_column_name_of(f.name),
                    sql: spec_to_sql(f.ty),
                    primary_key: false,
                },
            ]
        }
    }
}

/// The join tables (with their indexes and guards) deferred by the
/// repeated-value fields of a struct, in declared order.
pub open spec fn spec_struct_deferred(name: Seq<char>, fields: Seq<FieldV>) -> Seq<
    DefinitionV<SqlV>,
>
    decreases fields.len(),
{
    if fields.len() == 0 {
        Seq::empty()
    } else {
        let prev = spec_struct_deferred(name, fields.drop_last());
        let f = fields.last();
        if spec_is_vec(f.ty) {
            prev + spec_list_table_defs(
                name,
                spec_struct_list_entry_table_name(name, f.name),
                spec_to_sql(spec_inner_type(f.ty)),
            )
        } else {
            prev
        }
    }
}

/// The index definitions derived from the named fields of a table: one per
/// field whose mapped type, stripped of nullability, is a foreign key.
pub open spec fn spec_indexes(name: Seq<char>, pairs: Seq<(Seq<char>, RustTypeV)>) -> Seq<
    DefinitionV<SqlV>,
>
    decreases pairs.len(),
{
    if pairs.len() == 0 {
        Seq::empty()
    } else {
        let prev = spec_indexes(name, pairs.drop_last());
        let p = pairs.last();
        if spec_nullable(spec_to_sql(p.1)) is References {
            prev + seq![spec_index_def(name, spec_column_name_of(p.0))]
        } else {
            prev
        }
    }
}

/// The foreign-key children of a table: for each field whose mapped type
/// is a foreign key, its column name with the referenced table and column.
pub open spec fn spec_children(pairs: Seq<(Seq<char>, RustTypeV)>) -> Seq<
    (Seq<char>, Seq<char>, Seq<char>),
>
    decreases pairs.len(),
{
    if pairs.len() == 0 {
        Seq::empty()
    } else {
        let prev = spec_children(pairs.drop_last());
        let p = pairs.last();
        match spec_nullable(spec_to_sql(p.1)) {
            SqlTypeV::References(other_table, other_column, _, _) => prev + seq![
                (spec_column_name_of(p.0), other_table, other_column),
            ],
            _ => prev,
        }
    }
}

/// The auxiliary definitions appended after a table: its foreign-key
/// indexes and, when it has foreign-key children, one abandon function
/// recording them all.
pub open spec fn spec_index_and_abandon(
    name: Seq<char>,
    pairs: Seq<(Seq<char>, RustTypeV)>,
) -> Seq<DefinitionV<SqlV>> {
    spec_indexes(name, pairs) + if spec_children(pairs).len() > 0 {
        seq![spec_abandon_def(name, spec_children(pairs))]
    } else {
        Seq::empty()
    }
}

/// The field names and types of a struct, as pairs.
pub open spec fn spec_field_pairs(fields: Seq<FieldV>) -> Seq<(Seq<char>, RustTypeV)> {
    fields.map_values(|f: FieldV| (f.name, f.ty))
}

/// The variant names and payload types of a tagged union, as pairs.
pub open spec fn spec_variant_pairs(variants: Seq<DataVariantV>) -> Seq<(Seq<char>, RustTypeV)> {
    variants.map_values(|v: DataVariantV| (v.name, v.ty))
}

/// The definitions synthesized for a struct: its table (surrogate key
/// first, then one column per non-repeated field), its foreign-key indexes
/// and abandon function, then the join tables of its repeated fields.
pub open spec fn spec_struct_defs(name: Seq<char>, fields: Seq<FieldV>) -> Seq<
    DefinitionV<SqlV>,
> {
    seq![
        DefinitionV {
            name: name,
            value: SqlV::Table(
                seq![spec_id_column()] + spec_struct_columns(fields),
                Seq::empty(),
            ),
        },
    ] + spec_index_and_abandon(name, spec_field_pairs(fields)) + spec_struct_deferred(name, fields)
}

/// Whether some variant collides, ignoring ASCII case, with the reserved
/// surrogate-key name.
pub open spec fn spec_has_reserved_variant(variants: Seq<DataVariantV>) -> bool {
    exists|i: int| 0 <= i < variants.len() && matches_reserved_key(variants[i].name)
}

/// The per-variant columns of a tagged-union table: named by variant,
/// typed by payload, mapped nullable.
pub open spec fn spec_variant_columns(variants: Seq<DataVariantV>) -> Seq<ColumnV> {
    variants.map_values(
        |v: DataVariantV| ColumnV {
            name: spec_column_name_of(v.name),
            sql: spec_nullable(spec_to_sql(v.ty)),
            primary_key: false,
        },
    )
}

/// The definitions synthesized for a tagged union: one table whose columns
/// are the surrogate key (unless a variant claims the reserved name)
/// followed by one nullable column per variant, a single exactly-one-non-
/// null constraint over the variant columns, then indexes and abandon
/// function.
pub open spec fn spec_data_enum_defs(name: Seq<char>, variants: Seq<DataVariantV>) -> Seq<
    DefinitionV<SqlV>,
> {
    seq![
        DefinitionV {
            name: name,
            value: SqlV::Table(
                (if spec_has_reserved_variant(variants) {
                    Seq::empty()
                } else {
                    seq![spec_id_column()]
                }) + spec_variant_columns(variants),
                seq![
                    ConstraintV::OneNotNull(
                        variants.map_values(|v: DataVariantV| spec_module_name(v.name)),
                    ),
                ],
            ),
        },
    ] + spec_index_and_abandon(name, spec_variant_pairs(variants))
}

/// The definitions synthesized for a plain enumeration: the enumeration
/// object with its labels in declared order, and its delete-prevention
/// guard. No table and no index.
pub open spec fn spec_enum_defs(name: Seq<char>, variants: Seq<Seq<char>>) -> Seq<
    DefinitionV<SqlV>,
> {
    seq![DefinitionV { name: name, value: SqlV::Enum(variants) }, spec_prevent_def(name)]
}

/// The definitions synthesized for a tuple wrapper: a table holding only
/// the surrogate key, and a join table normalizing the wrapped value.
pub open spec fn spec_tuple_defs(name: Seq<char>, inner: RustTypeV) -> Seq<DefinitionV<SqlV>> {
    seq![
        DefinitionV {
            name: name,
            value: SqlV::Table(seq![spec_id_column()], Seq::empty()),
        },
    ] + spec_list_table_defs(
        name,
        spec_definition_name(name + "ListEntry"@),
        spec_to_sql(spec_inner_type(inner)),
    )
}

/// The definitions synthesized for one model definition, dispatched by
/// variant.
pub open spec fn spec_definition_defs(name: Seq<char>, rust: RustV) -> Seq<DefinitionV<SqlV>> {
    match rust {
        RustV::Struct(fields) => spec_struct_defs(name, fields),
        RustV::Enum(variants) => spec_enum_defs(name, variants),
        RustV::DataEnum(variants) => spec_data_enum_defs(name, variants),
        RustV::TupleStruct(inner) => spec_tuple_defs(name, inner),
    }
}

/// The whole synthesized definition list, before ordering: each model
/// definition, under its mangled name, contributes its definitions in
/// declared order.
pub open spec fn spec_synthesize(defs: Seq<DefinitionV<RustV>>) -> Seq<DefinitionV<SqlV>>
    decreases defs.len(),
{
    if defs.len() == 0 {
        Seq::empty()
    } else {
        spec_synthesize(defs.drop_last()) + spec_definition_defs(
            spec_definition_name(defs.last().name),
            defs.last().value,
        )
    }
}

/// Whether the field type produces no column on its owning table (it is
/// normalized into a join table instead).
pub open spec fn spec_has_no_column(t: RustTypeV) -> bool {
    spec_is_vec(t)
}

/// Whether the innermost type of a field is primitive for persistence:
/// a scalar, a string, a byte or bit sequence, or the null type.
pub open spec fn spec_model_is_primitive(t: RustTypeV) -> bool {
    let inner = spec_inner_type(t);
    match inner {
        RustTypeV::String(_, _) => true,
        RustTypeV::VecU8(_) => true,
        RustTypeV::BitVec(_) => true,
        RustTypeV::Null => true,
        _ => spec_is_scalar(inner),
    }
}

impl Model<Sql> {
    /// The schema-side column name of a model field name: its snake-case
    /// rendering, with a trailing marker appended when the trimmed name
    /// collides, ignoring ASCII case, with the reserved surrogate-key name.
    pub fn sql_column_name(name: &str) -> (r: String)
        ensures
            r@ == spec_column_name_of(name@),
    {
        if collides_with_reserved_key(name) {
            let mut string = rust_module_name(name);
            push_char(&mut string, '_');
            string
        } else {
            rust_module_name(name)
        }
    }

    /// The schema-side definition name of a model name: unchanged when at
    /// or under the identifier ceiling, else shortened by the mangling
    /// scan.
    pub fn sql_definition_name(name: &str) -> (r: String)
        ensures
            r@ == spec_definition_name(name@),
    {
        mangle_definition_name(name)
    }

    /// The name of the join table normalizing a repeated-value field.
    pub fn struct_list_entry_table_name(struct_name: &str, field_name: &str) -> (r: String)
        ensures
            r@ == spec_struct_list_entry_table_name(struct_name@, field_name@),
    {
        let mut combined = struct_name.to_owned();
        combined.append("_");
        let variant = rust_variant_name(field_name);
        combined.append(variant.as_str());
        Self::sql_definition_name(combined.as_str())
    }

    /// Whether a field of this type produces no column on the owning
    /// struct's table.
    pub fn has_no_column_in_embedded_struct(rust: &RustType) -> (r: bool)
        ensures
            r == spec_has_no_column(rust@),
    {
        rust.is_vec()
    }

    /// Whether the innermost type of a field is primitive for persistence.
    pub fn is_primitive(rust: &RustType) -> (r: bool)
        ensures
            r == spec_model_is_primitive(rust@),
    {
        match rust.as_inner_type() {
            RustType::String(_, _) => true,
            RustType::VecU8(_) => true,
            RustType::BitVec(_) => true,
            RustType::Null => true,
            r => r.is_primitive(),
        }
    }

    /// The index definition over one column of a table.
    fn index_def(table: &str, column: &str) -> (r: Definition<Sql>)
        ensures
            r@ == spec_index_def(table@, column@),
    {
        let mut combined = table.to_owned();
        combined.append("_Index_");
        combined.append(column);
        let name = Self::sql_definition_name(combined.as_str());
        let mut cols: Vec<String> = Vec::new();
        cols.push(column.to_owned());
        proof {
            assert(cols@.map_values(|c: String| c@) =~~= seq![column@]);
        }
        Definition(name, Sql::Index(table.to_owned(), cols))
    }

    /// Appends an index definition when the field's mapped type, stripped
    /// of nullability, is a foreign key.
    fn add_index_if_applicable(
        table: &str,
        column: &str,
        rust: &RustType,
        definitions: &mut Vec<Definition<Sql>>,
    )
        ensures
            sql_defs_view(final(definitions)@) == sql_defs_view(old(definitions)@)
                + if spec_nullable(spec_to_sql(rust@)) is References {
                seq![spec_index_def(table@, column@)]
            } else {
                Seq::empty()
            },
    {
        let sql = rust.to_sql().nullable();
        let is_ref = match sql {
            SqlType::References(_, _, _, _) => true,
            _ => false,
        };
        if is_ref {
            definitions.push(Self::index_def(table, column));
            proof {
                assert(sql_defs_view(definitions@) =~~= sql_defs_view(old(definitions)@)
                    + seq![spec_index_def(table@, column@)]);
            }
        } else {
            proof {
                assert(sql_defs_view(definitions@) =~~= sql_defs_view(old(definitions)@)
                    + Seq::<DefinitionV<SqlV>>::empty());
            }
        }
    }

    /// Appends the abandon function recording a table's foreign-key
    /// children.
    fn add_abandon_children(
        name: &str,
        children: Vec<(String, String, String)>,
        definitions: &mut Vec<Definition<Sql>>,
    )
        ensures
            sql_defs_view(final(definitions)@) == sql_defs_view(old(definitions)@) + seq![
                spec_abandon_def(
                    name@,
                    children@.map_values(|c: (String, String, String)| (c.0@, c.1@, c.2@)),
                ),
            ],
    {
        let mut combined = "DelChilds_".to_owned();
        combined.append(name);
        let mangled = Self::sql_definition_name(combined.as_str());
        definitions.push(Definition(mangled, Sql::AbandonChildrenFunction(
            name.to_owned(),
            children,
        )));
        proof {
            assert(sql_defs_view(definitions@) =~~= sql_defs_view(old(definitions)@) + seq![
                spec_abandon_def(
                    name@,
                    children@.map_values(|c: (String, String, String)| (c.0@, c.1@, c.2@)),
                ),
            ]);
        }
    }

    /// Appends the delete-prevention guard of an enumeration.
    fn add_silently_prevent_any_delete(name: &str, definitions: &mut Vec<Definition<Sql>>)
        ensures
            sql_defs_view(final(definitions)@) == sql_defs_view(old(definitions)@) + seq![
                spec_prevent_def(name@),
            ],
    {
        let mut combined = "SilentlyPreventAnyDeleteOn".to_owned();
        combined.append(name);
        let mangled = Self::sql_definition_name(combined.as_str());
        definitions.push(Definition(mangled, Sql::SilentlyPreventAnyDelete(name.to_owned())));
        proof {
            assert(sql_defs_view(definitions@) =~~= sql_defs_view(old(definitions)@) + seq![
                spec_prevent_def(name@),
            ]);
        }
    }

    /// Appends the join table (with indexes and guard) that normalizes one
    /// repeated-value field.
    fn add_list_table(
        name: &str,
        definitions: &mut Vec<Definition<Sql>>,
        list_entry_name: &str,
        value_sql_type: &SqlType,
    )
        ensures
            sql_defs_view(final(definitions)@) == sql_defs_view(old(definitions)@)
                + spec_list_table_defs(name@, list_entry_name@, value_sql_type@),
    {
        let mut columns: Vec<Column> = Vec::new();
        columns.push(Column {
            name: "list".to_owned(),
            sql: SqlType::NotNull(Box::new(SqlType::References(
                name.to_owned(),
                fk_column_str().to_owned(),
                Some(Action::Cascade),
                Some(Action::Cascade),
            ))),
            primary_key: false,
        });
        columns.push(Column {
            name: "value".to_owned(),
            sql: value_sql_type.clone(),
            primary_key: false,
        });
        let mut key_columns: Vec<String> = Vec::new();
        key_columns.push("list".to_owned());
        key_columns.push("value".to_owned());
        let mut constraints: Vec<Constraint> = Vec::new();
        constraints.push(Constraint::CombinedPrimaryKey(key_columns));
        definitions.push(Definition(list_entry_name.to_owned(), Sql::Table(columns, constraints)));
        definitions.push(Self::index_def(list_entry_name, "list"));
        definitions.push(Self::index_def(list_entry_name, "value"));
        match value_sql_type.as_nullable() {
            SqlType::References(other_table, other_column, _, _) => {
                let mut children: Vec<(String, String, String)> = Vec::new();
                children.push(("value".to_owned(), other_table.clone(), other_column.clone()));
                proof {
                    assert(children@.map_values(|c: (String, String, String)| (c.0@, c.1@, c.2@))
                        =~~= seq![("value"@, other_table@, other_column@)]);
                }
                Self::add_abandon_children(list_entry_name, children, definitions);
            },
            _ => {},
        }
        proof {
            reveal_with_fuel(crate::sql::view_sql_type, 3);
            assert(sql_defs_view(definitions@) =~~= sql_defs_view(old(definitions)@)
                + spec_list_table_defs(name@, list_entry_name@, value_sql_type@));
        }
    }

    /// Appends the foreign-key indexes of a table and, when it has any
    /// foreign-key children, one abandon function recording them all.
    fn append_index_and_abandon_function(
        name: &str,
        fields: &Vec<(String, RustType)>,
        definitions: &mut Vec<Definition<Sql>>,
    )
        ensures
            sql_defs_view(final(definitions)@) == sql_defs_view(old(definitions)@)
                + spec_index_and_abandon(
                name@,
                fields@.map_values(|p: (String, RustType)| (p.0@, p.1@)),
            ),
    {
        let ghost pairs = fields@.map_values(|p: (String, RustType)| (p.0@, p.1@));
        let mut children: Vec<(String, String, String)> = Vec::new();
        let mut i: usize = 0;
        while i < fields.len()
            invariant
                i <= fields.len(),
                pairs == fields@.map_values(|p: (String, RustType)| (p.0@, p.1@)),
                sql_defs_view(definitions@) == sql_defs_view(old(definitions)@) + spec_indexes(
                    name@,
                    pairs.take(i as int),
                ),
                children@.map_values(|c: (String, String, String)| (c.0@, c.1@, c.2@))
                    == spec_children(pairs.take(i as int)),
            decreases fields.len() - i,
        {
            let column = Self::sql_column_name(fields[i].0.as_str());
            Self::add_index_if_applicable(name, column.as_str(), &fields[i].1, definitions);
            let sql = fields[i].1.to_sql().nullable();
            match sql {
                SqlType::References(other_table, other_column, _, _) => {
                    children.push((column, other_table, other_column));
                },
                _ => {},
            }
            proof {
                assert(pairs.take(i + 1 as int).drop_last() =~~= pairs.take(i as int));
                assert(pairs.take(i + 1 as int).last() == pairs[i as int]);
                assert(sql_defs_view(definitions@) =~~= sql_defs_view(old(definitions)@)
                    + spec_indexes(name@, pairs.take(i + 1 as int)));
                assert(children@.map_values(|c: (String, String, String)| (c.0@, c.1@, c.2@))
                    =~~= spec_children(pairs.take(i + 1 as int)));
            }
            i = i + 1;
        }
        proof {
            assert(pairs.take(pairs.len() as int) =~~= pairs);
        }
        if children.len() > 0 {
            Self::add_abandon_children(name, children, definitions);
        } else {
            proof {
                assert(sql_defs_view(definitions@) =~~= sql_defs_view(old(definitions)@)
                    + spec_index_and_abandon(name@, pairs));
            }
        }
    }

    /// Synthesizes the table of a struct definition: the surrogate key
    /// first, one column per non-repeated field, then indexes, abandon
    /// function and the join tables of its repeated fields.
    #[verifier::loop_isolation(false)]
    pub fn rust_struct_to_sql_table(
        name: &str,
        fields: &[Field],
        definitions: &mut Vec<Definition<Sql>>,
    )
        ensures
            sql_defs_view(final(definitions)@) == sql_defs_view(old(definitions)@)
                + spec_struct_defs(name@, fields@.map_values(|f: Field| f@)),
    {
        let ghost fieldsv = fields@.map_values(|f: Field| f@);
        let mut deferred: Vec<Definition<Sql>> = Vec::new();
        let mut columns: Vec<Column> = Vec::new();
        columns.push(Column {
            name: fk_column_str().to_owned(),
            sql: SqlType::Serial,
            primary_key: true,
        });
        proof {
            assert(columns@.map_values(|c: Column| c@) =~~= seq![spec_id_column()]
                + spec_struct_columns(fieldsv.take(0)));
        }
        let mut i: usize = 0;
        while i < fields.len()
            invariant
                i <= fields.len(),
                fieldsv == fields@.map_values(|f: Field| f@),
                columns@.map_values(|c: Column| c@) == seq![spec_id_column()]
                    + spec_struct_columns(fieldsv.take(i as int)),
                sql_defs_view(deferred@) == spec_struct_deferred(name@, fieldsv.take(i as int)),
            decreases fields.len() - i,
        {
            let field = &fields[i];
            proof {
                assert(fieldsv[i as int] == fields@[i as int]@);
                assert(fieldsv.take(i + 1 as int).drop_last() =~~= fieldsv.take(i as int));
                assert(fieldsv.take(i + 1 as int).last() == fieldsv[i as int]);
            }
            if field.ty().is_vec() {
                let list_entry_name = Self::struct_list_entry_table_name(
                    name,
                    field.name().as_str(),
                );
                let value_sql_type = field.ty().as_inner_type().to_sql();
                Self::add_list_table(
                    name,
                    &mut deferred,
                    list_entry_name.as_str(),
                    &value_sql_type,
                );
                proof {
                    assert(spec_struct_columns(fieldsv.take(i + 1 as int))
                        == spec_struct_columns(fieldsv.take(i as int)));
                    assert(sql_defs_view(deferred@) =~~= spec_struct_deferred(
                        name@,
                        fieldsv.take(i + 1 as int),
                    ));
                }
            } else {
                let ghost cols_before = columns@;
                let column = Column {
                    name: Self::sql_column_name(field.name().as_str()),
                    sql: field.ty().to_sql(),
                    primary_key: false,
                };
                proof {
                    assert(column@ == ColumnV {
                        name: spec_column_name_of(fieldsv[i as int].name),
                        sql: spec_to_sql(fieldsv[i as int].ty),
                        primary_key: false,
                    });
                }
                columns.push(column);
                proof {
                    assert(columns@.map_values(|c: Column| c@) =~~= cols_before.map_values(
                        |c: Column| c@,
                    ).push(
                        ColumnV {
                            name: spec_column_name_of(fieldsv[i as int].name),
                            sql: spec_to_sql(fieldsv[i as int].ty),
                            primary_key: false,
                        },
                    ));
                    assert(columns@.map_values(|c: Column| c@) =~~= seq![spec_id_column()]
                        + spec_struct_columns(fieldsv.take(i + 1 as int)));
                    assert(sql_defs_view(deferred@) =~~= spec_struct_deferred(
                        name@,
                        fieldsv.take(i + 1 as int),
                    ));
                }
            }
            i = i + 1;
        }
        proof {
            assert(fieldsv.take(fieldsv.len() as int) =~~= fieldsv);
        }
        definitions.push(Definition(name.to_owned(), Sql::Table(columns, Vec::new())));
        let mut pairs: Vec<(String, RustType)> = Vec::new();
        let mut j: usize = 0;
        while j < fields.len()
            invariant
                j <= fields.len(),
                fieldsv == fields@.map_values(|f: Field| f@),
                pairs@.map_values(|p: (String, RustType)| (p.0@, p.1@)) == spec_field_pairs(
                    fieldsv.take(j as int),
                ),
            decreases fields.len() - j,
        {
            let ghost pairs_before = pairs@;
            pairs.push((fields[j].name().clone(), fields[j].ty().clone()));
            proof {
                assert(fieldsv[j as int] == fields@[j as int]@);
                assert(pairs@.map_values(|p: (String, RustType)| (p.0@, p.1@))
                    =~~= pairs_before.map_values(|p: (String, RustType)| (p.0@, p.1@)).push(
                    (fieldsv[j as int].name, fieldsv[j as int].ty),
                ));
                assert(spec_field_pairs(fieldsv.take(j + 1 as int)) =~~= spec_field_pairs(
                    fieldsv.take(j as int),
                ).push((fieldsv[j as int].name, fieldsv[j as int].ty)));
                assert(pairs@.map_values(|p: (String, RustType)| (p.0@, p.1@)) =~~= spec_field_pairs(
                    fieldsv.take(j + 1 as int),
                ));
            }
            j = j + 1;
        }
        proof {
            assert(fieldsv.take(fieldsv.len() as int) =~~= fieldsv);
        }
        Self::append_index_and_abandon_function(name, &pairs, definitions);
        let mut k: usize = 0;
        let ghost defs_before = sql_defs_view(definitions@);
        while k < deferred.len()
            invariant
                k <= deferred.len(),
                sql_defs_view(deferred@) == spec_struct_deferred(name@, fieldsv),
                sql_defs_view(definitions@) == defs_before + sql_defs_view(deferred@).take(
                    k as int,
                ),
            decreases deferred.len() - k,
        {
            let ghost defs_now = definitions@;
            definitions.push(deferred[k].clone());
            proof {
                assert(sql_defs_view(definitions@) =~~= sql_defs_view(defs_now).push(
                    deferred@[k as int]@,
                ));
                assert(sql_defs_view(deferred@).take(k + 1 as int) =~~= sql_defs_view(
                    deferred@,
                ).take(k as int).push(deferred@[k as int]@));
                assert(sql_defs_view(definitions@) =~~= defs_before + sql_defs_view(
                    deferred@,
                ).take(k + 1 as int));
            }
            k = k + 1;
        }
        proof {
            assert(sql_defs_view(deferred@).take(deferred@.len() as int) =~~= sql_defs_view(
                deferred@,
            ));
            assert(sql_defs_view(definitions@) =~~= sql_defs_view(old(definitions)@)
                + spec_struct_defs(name@, fieldsv));
        }
    }

    /// Synthesizes the flat table of a tagged union: the surrogate key
    /// (unless a variant claims the reserved name), one nullable column per
    /// variant, and the exactly-one-non-null constraint over the variant
    /// columns, then indexes and abandon function.
    pub fn rust_data_enum_to_sql_table(
        name: &str,
        enumeration: &DataEnum,
        definitions: &mut Vec<Definition<Sql>>,
    )
        ensures
            sql_defs_view(final(definitions)@) == sql_defs_view(old(definitions)@)
                + spec_data_enum_defs(name@, enumeration@),
    {
        let ghost variantsv = enumeration@;
        let variants = enumeration.variants();
        let mut found = false;
        let mut i: usize = 0;
        while i < variants.len()
            invariant
                i <= variants.len(),
                variantsv == variants@.map_values(|v: crate::rust::DataVariant| v@),
                found == exists|j: int|
                    0 <= j < i && matches_reserved_key(variantsv[j].name),
            decreases variants.len() - i,
        {
            let hit = collides_with_reserved_key_untrimmed(variants[i].name().as_str());
            proof {
                assert(variantsv[i as int] == variants@[i as int]@);
                if hit {
                    assert(matches_reserved_key(variantsv[i as int].name));
                }
            }
            found = found || hit;
            i = i + 1;
        }
        let mut columns: Vec<Column> = Vec::new();
        if !found {
            columns.push(Column {
                name: fk_column_str().to_owned(),
                sql: SqlType::Serial,
                primary_key: true,
            });
        }
        let ghost head = if spec_has_reserved_variant(variantsv) {
            Seq::<ColumnV>::empty()
        } else {
            seq![spec_id_column()]
        };
        proof {
            assert(columns@.map_values(|c: Column| c@) =~~= head + spec_variant_columns(
                variantsv.take(0),
            ));
        }
        let mut k: usize = 0;
        while k < variants.len()
            invariant
                k <= variants.len(),
                variantsv == variants@.map_values(|v: crate::rust::DataVariant| v@),
                head == if spec_has_reserved_variant(variantsv) {
                    Seq::<ColumnV>::empty()
                } else {
                    seq![spec_id_column()]
                },
                columns@.map_values(|c: Column| c@) == head + spec_variant_columns(
                    variantsv.take(k as int),
                ),
            decreases variants.len() - k,
        {
            let ghost cols_before = columns@;
            let column = Column {
                name: Self::sql_column_name(variants[k].name().as_str()),
                sql: variants[k].ty().to_sql().nullable(),
                primary_key: false,
            };
            proof {
                assert(variantsv[k as int] == variants@[k as int]@);
                assert(column@ == ColumnV {
                    name: spec_column_name_of(variantsv[k as int].name),
                    sql: spec_nullable(spec_to_sql(variantsv[k as int].ty)),
                    primary_key: false,
                });
            }
            columns.push(column);
            proof {
                assert(columns@.map_values(|c: Column| c@) =~~= cols_before.map_values(
                    |c: Column| c@,
                ).push(
                    ColumnV {
                        name: spec_column_name_of(variantsv[k as int].name),
                        sql: spec_nullable(spec_to_sql(variantsv[k as int].ty)),
                        primary_key: false,
                    },
                ));
                assert(spec_variant_columns(variantsv.take(k + 1 as int)) =~~= spec_variant_columns(
                    variantsv.take(k as int),
                ).push(
                    ColumnV {
                        name: spec_column_name_of(variantsv[k as int].name),
                        sql: spec_nullable(spec_to_sql(variantsv[k as int].ty)),
                        primary_key: false,
                    },
                ));
                assert(columns@.map_values(|c: Column| c@) =~~= head + spec_variant_columns(
                    variantsv.take(k + 1 as int),
                ));
            }
            k = k + 1;
        }
        let mut constraint_names: Vec<String> = Vec::new();
        let mut m: usize = 0;
        while m < variants.len()
            invariant
                m <= variants.len(),
                variantsv == variants@.map_values(|v: crate::rust::DataVariant| v@),
                constraint_names@.map_values(|s: String| s@) == variantsv.take(
                    m as int,
                ).map_values(|v: DataVariantV| spec_module_name(v.name)),
            decreases variants.len() - m,
        {
            let ghost names_before = constraint_names@;
            constraint_names.push(rust_module_name(variants[m].name().as_str()));
            proof {
                assert(variantsv[m as int] == variants@[m as int]@);
                assert(constraint_names@.map_values(|s: String| s@) =~~= names_before.map_values(
                    |s: String| s@,
                ).push(spec_module_name(variantsv[m as int].name)));
                assert(variantsv.take(m + 1 as int).map_values(
                    |v: DataVariantV| spec_module_name(v.name),
                ) =~~= variantsv.take(m as int).map_values(
                    |v: DataVariantV| spec_module_name(v.name),
                ).push(spec_module_name(variantsv[m as int].name)));
                assert(constraint_names@.map_values(|s: String| s@) =~~= variantsv.take(
                    m + 1 as int,
                ).map_values(|v: DataVariantV| spec_module_name(v.name)));
            }
            m = m + 1;
        }
        let mut constraints: Vec<Constraint> = Vec::new();
        constraints.push(Constraint::OneNotNull(constraint_names));
        proof {
            assert(variantsv.take(variantsv.len() as int) =~~= variantsv);
        }
        definitions.push(Definition(name.to_owned(), Sql::Table(columns, constraints)));
        let mut pairs: Vec<(String, RustType)> = Vec::new();
        let mut j: usize = 0;
        while j < variants.len()
            invariant
                j <= variants.len(),
                variantsv == variants@.map_values(|v: crate::rust::DataVariant| v@),
                pairs@.map_values(|p: (String, RustType)| (p.0@, p.1@)) == spec_variant_pairs(
                    variantsv.take(j as int),
                ),
            decreases variants.len() - j,
        {
            let ghost pairs_before = pairs@;
            pairs.push((variants[j].name().clone(), variants[j].ty().clone()));
            proof {
                assert(variantsv[j as int] == variants@[j as int]@);
                assert(pairs@.map_values(|p: (String, RustType)| (p.0@, p.1@))
                    =~~= pairs_before.map_values(|p: (String, RustType)| (p.0@, p.1@)).push(
                    (variantsv[j as int].name, variantsv[j as int].ty),
                ));
                assert(spec_variant_pairs(variantsv.take(j + 1 as int)) =~~= spec_variant_pairs(
                    variantsv.take(j as int),
                ).push((variantsv[j as int].name, variantsv[j as int].ty)));
                assert(pairs@.map_values(|p: (String, RustType)| (p.0@, p.1@))
                    =~~= spec_variant_pairs(variantsv.take(j + 1 as int)));
            }
            j = j + 1;
        }
        proof {
            assert(variantsv.take(variantsv.len() as int) =~~= variantsv);
        }
        Self::append_index_and_abandon_function(name, &pairs, definitions);
        proof {
            assert(sql_defs_view(definitions@) =~~= sql_defs_view(old(definitions)@)
                + spec_data_enum_defs(name@, variantsv));
        }
    }

    /// Synthesizes the enumeration object of a plain enum, with its
    /// delete-prevention guard.
    pub fn rust_enum_to_sql_enum(
        name: &str,
        enumeration: &PlainEnum,
        definitions: &mut Vec<Definition<Sql>>,
    )
        ensures
            sql_defs_view(final(definitions)@) == sql_defs_view(old(definitions)@)
                + spec_enum_defs(name@, enumeration@),
    {
        let variants = clone_label_vec(enumeration.variants());
        definitions.push(Definition(name.to_owned(), Sql::Enum(variants)));
        Self::add_silently_prevent_any_delete(name, definitions);
        proof {
            assert(sql_defs_view(definitions@) =~~= sql_defs_view(old(definitions)@)
                + spec_enum_defs(name@, enumeration@));
        }
    }

    /// Synthesizes the table of a tuple wrapper: the outer table holds
    /// only the surrogate key, and the wrapped value is always normalized
    /// into a join table.
    pub fn rust_tuple_struct_to_sql_table(
        name: &str,
        rust_inner: &RustType,
        definitions: &mut Vec<Definition<Sql>>,
    )
        ensures
            sql_defs_view(final(definitions)@) == sql_defs_view(old(definitions)@)
                + spec_tuple_defs(name@, rust_inner@),
    {
        let mut columns: Vec<Column> = Vec::new();
        columns.push(Column {
            name: fk_column_str().to_owned(),
            sql: SqlType::Serial,
            primary_key: true,
        });
        proof {
            assert(columns@.map_values(|c: Column| c@) =~~= seq![spec_id_column()]);
        }
        definitions.push(Definition(name.to_owned(), Sql::Table(columns, Vec::new())));
        let mut combined = name.to_owned();
        combined.append("ListEntry");
        let list_entry_name = Self::sql_definition_name(combined.as_str());
        let value_sql_type = rust_inner.as_inner_type().to_sql();
        Self::add_list_table(name, definitions, list_entry_name.as_str(), &value_sql_type);
        proof {
            assert(sql_defs_view(definitions@) =~~= sql_defs_view(old(definitions)@)
                + spec_tuple_defs(name@, rust_inner@));
        }
    }

    /// Synthesizes the definitions of one model definition, dispatched by
    /// variant.
    fn definition_to_sql(name: &str, rust: &Rust, definitions: &mut Vec<Definition<Sql>>)
        ensures
            sql_defs_view(final(definitions)@) == sql_defs_view(old(definitions)@)
                + spec_definition_defs(name@, rust@),
    {
        match rust {
            Rust::Struct { fields, .. } => Self::rust_struct_to_sql_table(
                name,
                fields.as_slice(),
                definitions,
            ),
            Rust::Enum(rust_enum) => Self::rust_enum_to_sql_enum(name, rust_enum, definitions),
            Rust::DataEnum(enumeration) => Self::rust_data_enum_to_sql_table(
                name,
                enumeration,
                definitions,
            ),
            Rust::TupleStruct { ty, .. } => Self::rust_tuple_struct_to_sql_table(
                name,
                ty,
                definitions,
            ),
        }
    }
}

/// Whether the name itself (untrimmed) is, ignoring ASCII case, the
/// reserved surrogate-key name.
fn collides_with_reserved_key_untrimmed(name: &str) -> (r: bool)
    ensures
        r == matches_reserved_key(name@),
{
    let n = name.unicode_len();
    if n != 2 {
        return false;
    }
    let c0 = name.get_char(0);
    let c1 = name.get_char(1);
    (c0 == 'i' || c0 == 'I') && (c1 == 'd' || c1 == 'D')
}

/// A copy of an enumeration's label list.
fn clone_label_vec(v: &Vec<String>) -> (r: Vec<String>)
    ensures
        r@ == v@,
{
    let mut out: Vec<String> = Vec::new();
    let mut i: usize = 0;
    while i < v.len()
        invariant
            i <= v.len(),
            out@ == v@.subrange(0, i as int),
        decreases v.len() - i,
    {
        out.push(v[i].clone());
        proof {
            assert(v@.subrange(0, i + 1 as int) =~~= v@.subrange(0, i as int).push(v@[i as int]));
        }
        i = i + 1;
    }
    proof {
        assert(v@.subrange(0, v@.len() as int) =~~= v@);
    }
    out
}

impl Model<Sql> {
    /// Walks the first definition with the given name, if any; see
    /// [`spec_find_def`] and [`spec_walk`].
    fn walk_from_name(&self, name: &String, depths: &mut DepthMap, depth: usize)
        requires
            old(depths).wf(),
            dm_bounded(old(depths)@, self.definitions@.len() as int - 1),
        ensures
            final(depths).wf(),
            dm_bounded(final(depths)@, self.definitions@.len() as int - 1),
            final(depths)@ == match spec_find_def(sql_defs_view(self.definitions@), name@) {
                Some(i) => spec_walk(
                    sql_defs_view(self.definitions@),
                    i,
                    old(depths)@,
                    depth as int,
                ),
                None => old(depths)@,
            },
        decreases walk_budget(sql_defs_view(self.definitions@), depth as int), 1int,
    {
        let ghost defsv = sql_defs_view(self.definitions@);
        let mut index: usize = 0;
        while index < self.definitions.len()
            invariant
                index <= self.definitions@.len(),
                defsv == sql_defs_view(self.definitions@),
                depths.wf(),
                depths@ == old(depths)@,
                dm_bounded(depths@, self.definitions@.len() as int - 1),
                spec_find_def(defsv, name@) == spec_find_from(defsv, name@, index as int),
            decreases self.definitions@.len() - index,
        {
            proof {
                assert(defsv[index as int] == self.definitions@[index as int]@);
            }
            if self.definitions[index].0 == *name {
                proof {
                    assert(spec_find_from(defsv, name@, index as int) == Some(index as int));
                }
                self.walk_graph(index, depths, depth);
                return;
            }
            index = index + 1;
        }
    }

    /// The reference-depth walk rooted at one definition: raises its stored
    /// depth, then walks everything it references one level deeper. The
    /// walk stops at a depth bound that a cycle-free model never reaches,
    /// which makes it terminate on every input; see [`spec_walk`].
    fn walk_graph(&self, current: usize, depths: &mut DepthMap, depth: usize)
        requires
            old(depths).wf(),
            current < self.definitions@.len(),
            dm_bounded(old(depths)@, self.definitions@.len() as int - 1),
        ensures
            final(depths).wf(),
            dm_bounded(final(depths)@, self.definitions@.len() as int - 1),
            final(depths)@ == spec_walk(
                sql_defs_view(self.definitions@),
                current as int,
                old(depths)@,
                depth as int,
            ),
        decreases walk_budget(sql_defs_view(self.definitions@), depth as int), 0int,
    {
        let ghost defsv = sql_defs_view(self.definitions@);
        if depth >= self.definitions.len() {
            return;
        }
        let d2 = depths.bump(&self.definitions[current].0, depth);
        let ghost m1 = depths@;
        proof {
            assert(defsv[current as int] == self.definitions@[current as int]@);
            assert(dm_bounded(depths@, self.definitions@.len() as int - 1) && d2 as int
                <= self.definitions@.len() as int - 1);
        }
        match &self.definitions[current].1 {
            Sql::Table(columns, _) => {
                let ghost colsv = columns@.map_values(|c: Column| c@);
                let mut i: usize = 0;
                while i < columns.len()
                    invariant
                        i <= columns@.len(),
                        colsv == columns@.map_values(|c: Column| c@),
                        defsv == sql_defs_view(self.definitions@),
                        depth < self.definitions@.len(),
                        d2 >= depth,
                        d2 + 1 <= self.definitions@.len(),
                        d2 + 1 <= usize::MAX,
                        depths.wf(),
                        dm_bounded(depths@, self.definitions@.len() as int - 1),
                        depths@ == spec_walk_names(
                            defsv,
                            spec_ref_names_cols(colsv.take(i as int)),
                            m1,
                            d2 + 1 as int,
                        ),
                    decreases columns@.len() - i,
                {
                    proof {
                        assert(colsv[i as int] == columns@[i as int]@);
                        assert(colsv.take(i + 1 as int).drop_last() =~~= colsv.take(i as int));
                        assert(colsv.take(i + 1 as int).last() == colsv[i as int]);
                    }
                    match columns[i].sql.as_nullable() {
                        SqlType::References(other, _, _, _) => {
                            proof {
                                assert(spec_ref_names_cols(colsv.take(i + 1 as int))
                                    =~~= spec_ref_names_cols(colsv.take(i as int)).push(other@));
                                lemma_walk_names_snoc(
                                    defsv,
                                    spec_ref_names_cols(colsv.take(i as int)),
                                    other@,
                                    m1,
                                    d2 + 1 as int,
                                );
                            }
                            self.walk_from_name(other, depths, d2 + 1);
                        },
                        _ => {
                            proof {
                                assert(spec_ref_names_cols(colsv.take(i + 1 as int))
                                    =~~= spec_ref_names_cols(colsv.take(i as int)));
                            }
                        },
                    }
                    i = i + 1;
                }
                proof {
                    assert(colsv.take(colsv.len() as int) =~~= colsv);
                    assert(defsv[current as int].value == SqlV::Table(
                        colsv,
                        self.definitions@[current as int].1@->Table_1,
                    ));
                }
            },
            Sql::Enum(_) => {
                proof {
                    assert(spec_ref_names(defsv[current as int]) =~~= Seq::<Seq<char>>::empty());
                }
            },
            Sql::Index(table, _) => {
                proof {
                    assert(spec_ref_names(defsv[current as int]) =~~= seq![table@]);
                    lemma_walk_names_snoc(
                        defsv,
                        Seq::empty(),
                        table@,
                        m1,
                        d2 + 1 as int,
                    );
                    assert(Seq::<Seq<char>>::empty().push(table@) =~~= seq![table@]);
                }
                self.walk_from_name(table, depths, d2 + 1);
            },
            Sql::AbandonChildrenFunction(table, _) => {
                proof {
                    assert(spec_ref_names(defsv[current as int]) =~~= seq![table@]);
                    lemma_walk_names_snoc(
                        defsv,
                        Seq::empty(),
                        table@,
                        m1,
                        d2 + 1 as int,
                    );
                    assert(Seq::<Seq<char>>::empty().push(table@) =~~= seq![table@]);
                }
                self.walk_from_name(table, depths, d2 + 1);
            },
            Sql::SilentlyPreventAnyDelete(table) => {
                proof {
                    assert(spec_ref_names(defsv[current as int]) =~~= seq![table@]);
                    lemma_walk_names_snoc(
                        defsv,
                        Seq::empty(),
                        table@,
                        m1,
                        d2 + 1 as int,
                    );
                    assert(Seq::<Seq<char>>::empty().push(table@) =~~= seq![table@]);
                }
                self.walk_from_name(table, depths, d2 + 1);
            },
        }
    }

    /// Reorders the definitions stably by descending reference depth, so
    /// that every definition is emitted before the definitions that
    /// reference it by name; see [`spec_sorted`].
    fn fix_table_declaration_occurrence(&mut self)
        ensures
            final(self).name == old(self).name,
            final(self).imports == old(self).imports,
            sql_defs_view(final(self).definitions@) == spec_sorted(
                sql_defs_view(old(self).definitions@),
            ),
    {
        let ghost defsv = sql_defs_view(self.definitions@);
        let n = self.definitions.len();
        let mut depth_map = DepthMap::new();
        let mut i: usize = 0;
        while i < n
            invariant
                i <= n,
                n == self.definitions@.len(),
                *self == *old(self),
                defsv == sql_defs_view(self.definitions@),
                depth_map.wf(),
                dm_bounded(depth_map@, n as int - 1),
                depth_map@ == spec_depths_upto(defsv, i as int),
            decreases n - i,
        {
            self.walk_graph(i, &mut depth_map, 0);
            i = i + 1;
        }
        let ghost dmv = depth_map@;
        let mut sorted: Vec<Definition<Sql>> = Vec::new();
        let mut dd: usize = 0;
        while dd < n
            invariant
                dd <= n,
                n == self.definitions@.len(),
                *self == *old(self),
                defsv == sql_defs_view(self.definitions@),
                depth_map.wf(),
                dmv == depth_map@,
                sql_defs_view(sorted@) == spec_buckets_desc(defsv, dmv, dd as int),
            decreases n - dd,
        {
            let d = n - 1 - dd;
            let ghost before_bucket = sql_defs_view(sorted@);
            let mut j: usize = 0;
            while j < n
                invariant
                    j <= n,
                    d == n - 1 - dd,
                    dd < n,
                    n == self.definitions@.len(),
                    *self == *old(self),
                    defsv == sql_defs_view(self.definitions@),
                    depth_map.wf(),
                    dmv == depth_map@,
                    sql_defs_view(sorted@) == before_bucket + spec_bucket(
                        defsv.take(j as int),
                        dmv,
                        d as int,
                    ),
                decreases n - j,
            {
                proof {
                    assert(defsv[j as int] == self.definitions@[j as int]@);
                    assert(defsv.take(j + 1 as int).drop_last() =~~= defsv.take(j as int));
                    assert(defsv.take(j + 1 as int).last() == defsv[j as int]);
                }
                let recorded = match depth_map.get(&self.definitions[j].0) {
                    Some(v) => v,
                    None => 0,
                };
                proof {
                    assert(recorded as int == spec_depth_of(dmv, defsv[j as int].name));
                }
                if recorded == d {
                    let ghost sorted_before = sql_defs_view(sorted@);
                    sorted.push(self.definitions[j].clone());
                    proof {
                        assert(sql_defs_view(sorted@) =~~= sorted_before.push(defsv[j as int]));
                    }
                }
                proof {
                    assert(sql_defs_view(sorted@) =~~= before_bucket + spec_bucket(
                        defsv.take(j + 1 as int),
                        dmv,
                        d as int,
                    ));
                }
                j = j + 1;
            }
            proof {
                assert(defsv.take(defsv.len() as int) =~~= defsv);
                assert(sql_defs_view(sorted@) =~~= spec_buckets_desc(defsv, dmv, dd + 1 as int));
            }
            dd = dd + 1;
        }
        self.definitions = sorted;
    }

    /// Compiles a whole structural model into its schema model: every
    /// definition is synthesized in declared order under its mangled name,
    /// imports are dropped, and the result is reordered by reference depth;
    /// see [`spec_convert`].
    pub fn convert_rust_to_sql(rust_model: &Model<Rust>) -> (r: Model<Sql>)
        ensures
            r@ == spec_convert(rust_model@),
    {
        let mut model: Model<Sql> = Model {
            name: rust_model.name.clone(),
            imports: Vec::new(),
            definitions: Vec::new(),
        };
        let ghost rdefs = rust_model@.definitions;
        let mut i: usize = 0;
        while i < rust_model.definitions.len()
            invariant
                i <= rust_model.definitions@.len(),
                rdefs == rust_model@.definitions,
                model.name@ == rust_model.name@,
                model.imports@.len() == 0,
                sql_defs_view(model.definitions@) == spec_synthesize(rdefs.take(i as int)),
            decreases rust_model.definitions@.len() - i,
        {
            proof {
                assert(rdefs[i as int] == rust_model.definitions@[i as int]@);
                assert(rdefs.take(i + 1 as int).drop_last() =~~= rdefs.take(i as int));
                assert(rdefs.take(i + 1 as int).last() == rdefs[i as int]);
            }
            let def = &rust_model.definitions[i];
            let name = Self::sql_definition_name(def.0.as_str());
            Self::definition_to_sql(name.as_str(), &def.1, &mut model.definitions);
            proof {
                assert(sql_defs_view(model.definitions@) =~~= spec_synthesize(
                    rdefs.take(i + 1 as int),
                ));
            }
            i = i + 1;
        }
        proof {
            assert(rdefs.take(rdefs.len() as int) =~~= rdefs);
        }
        model.fix_table_declaration_occurrence();
        proof {
            assert(model@ =~~= spec_convert(rust_model@));
        }
        model
    }
}

/// The schema model of a whole structural model: the synthesized
/// definitions of every input definition, reordered by reference depth,
/// with imports dropped.
pub open spec fn spec_convert(m: ModelV<RustV>) -> ModelV<SqlV> {
    ModelV {
        name: m.name,
        imports: Seq::empty(),
        definitions: spec_sorted(spec_synthesize(m.definitions)),
    }
}

/// Conversion of a structural model into its schema model.
pub trait ToSqlModel {
    /// The schema model this value compiles to, as a mathematical value.
    spec fn to_sql_model_spec(&self) -> ModelV<SqlV>;

    /// Compiles this value to its schema model.
    fn to_sql(&self) -> (r: Model<Sql>)
        ensures
            r@ == self.to_sql_model_spec(),
    ;
}

impl ToSqlModel for Model<Rust> {
    open spec fn to_sql_model_spec(&self) -> ModelV<SqlV> {
        spec_convert(self@)
    }

    fn to_sql(&self) -> (r: Model<Sql>) {
        Model::<Sql>::convert_rust_to_sql(self)
    }
}

} // verus!
