//! The library's laws: properties of the type mapping, the name mangler
//! and the table synthesizers, stated over the same spec functions the
//! executable functions are verified against.

use vstd::prelude::*;

use crate::ident::{
    TYPENAME_LENGTH_LIMIT_PSQL, matches_reserved_key, spec_column_name_of, spec_definition_name,
    spec_mangle_from, spec_module_name, spec_trim,
};
use crate::model::DefinitionV;
use crate::order::{
    spec_bucket, spec_buckets_desc, spec_depth_map, spec_depth_of, spec_depths_upto,
    spec_find_def, spec_find_from, spec_ref_names, spec_sorted, spec_walk, spec_walk_names,
    walk_budget,
};
use crate::rust::{DataVariantV, FieldV, RustTypeV, spec_is_vec};
use crate::sql::{
    ConstraintV, SqlTypeV, SqlV, spec_fk_column, spec_nullable, spec_to_rust, spec_to_sql,
};
use crate::convert::{
    spec_data_enum_defs, spec_id_column, spec_index_and_abandon, spec_indexes,
    spec_list_table_defs, spec_struct_columns, spec_struct_defs, spec_struct_deferred,
    spec_struct_list_entry_table_name, spec_variant_columns,
};

verus! {

/// The declared inclusive bounds of an integer field type, as mathematical
/// integers; `None` for non-integer types and for an unbounded big
/// unsigned type.
pub open spec fn spec_int_bounds(t: RustTypeV) -> Option<(int, int)> {
    match t {
        RustTypeV::U8(r) => Some((r.0 as int, r.1 as int)),
        RustTypeV::I8(r) => Some((r.0 as int, r.1 as int)),
        RustTypeV::U16(r) => Some((r.0 as int, r.1 as int)),
        RustTypeV::I16(r) => Some((r.0 as int, r.1 as int)),
        RustTypeV::U32(r) => Some((r.0 as int, r.1 as int)),
        RustTypeV::I32(r) => Some((r.0 as int, r.1 as int)),
        RustTypeV::U64(r) => match (r.0, r.1) {
            (Some(lo), Some(hi)) => Some((lo as int, hi as int)),
            _ => None,
        },
        RustTypeV::I64(r) => Some((r.0 as int, r.1 as int)),
        _ => None,
    }
}

/// Round-trip width safety: an integer field type whose declared range is
/// non-negative and fits a signed 64-bit value maps to a column type that
/// maps back to an integer type whose range contains the declared range.
/// (A range reaching below zero, or a big unsigned bound beyond the signed
/// 64-bit maximum, has no such guarantee: the round trip lands on signed,
/// zero-based ranges.)
pub proof fn lemma_round_trip_width(t: RustTypeV)
    requires
        spec_int_bounds(t) is Some,
        0 <= spec_int_bounds(t)->Some_0.0,
        spec_int_bounds(t)->Some_0.1 <= 0x7fffffffffffffff,
    ensures
        spec_int_bounds(spec_to_rust(spec_to_sql(t))) is Some,
        spec_int_bounds(spec_to_rust(spec_to_sql(t)))->Some_0.0 <= spec_int_bounds(t)->Some_0.0,
        spec_int_bounds(t)->Some_0.1 <= spec_int_bounds(spec_to_rust(spec_to_sql(t)))->Some_0.1,
{
    reveal_with_fuel(spec_to_rust, 3);
}

/// Every column type the mapping produces is either not-null with a plain
/// payload, or already plain: stripping nullability never uncovers another
/// not-null wrapper.
pub proof fn lemma_to_sql_no_nested_not_null(t: RustTypeV)
    ensures
        !(spec_nullable(spec_to_sql(t)) is NotNull),
    decreases t,
{
    match t {
        RustTypeV::Option(inner) => {
            lemma_to_sql_no_nested_not_null(*inner);
        },
        RustTypeV::Default(inner) => {
            lemma_to_sql_no_nested_not_null(*inner);
        },
        _ => {},
    }
}

/// Nullability duality, first half: mapping an optional type always yields
/// a nullable column type.
pub proof fn lemma_optional_maps_nullable(t: RustTypeV)
    ensures
        !(spec_to_sql(RustTypeV::Option(Box::new(t))) is NotNull),
{
    lemma_to_sql_no_nested_not_null(t);
}

/// Nullability duality, second half: mapping a non-optional, non-defaulted
/// type always yields a not-null column type. (The null type itself is the
/// one exception and is left out: it maps to a nullable byte array.)
pub proof fn lemma_non_optional_maps_not_null(t: RustTypeV)
    requires
        !(t is Option),
        !(t is Default),
        !(t is Null),
    ensures
        spec_to_sql(t) is NotNull,
{
}

/// Name-length bound, helper: the mangling scan never grows its
/// accumulator beyond the ceiling.
proof fn lemma_mangle_from_bounded(s: Seq<char>, i: int, acc: Seq<char>)
    requires
        acc.len() < TYPENAME_LENGTH_LIMIT_PSQL,
    ensures
        spec_mangle_from(s, i, acc).len() <= TYPENAME_LENGTH_LIMIT_PSQL,
    decreases s.len() - i,
{
    if i < 0 || i >= s.len() {
    } else if crate::ident::is_ascii_lowercase_char(s[i]) {
        lemma_mangle_from_bounded(s, i + 1, acc);
    } else {
        let acc2 = acc.push(s[i]);
        if s.len() - i - 1 + acc2.len() <= TYPENAME_LENGTH_LIMIT_PSQL {
        } else if acc2.len() >= TYPENAME_LENGTH_LIMIT_PSQL {
        } else {
            lemma_mangle_from_bounded(s, i + 1, acc2);
        }
    }
}

/// Name-length bound: a mangled definition name never exceeds the
/// identifier ceiling, whatever the input length.
pub proof fn lemma_definition_name_length(name: Seq<char>)
    ensures
        name.len() > TYPENAME_LENGTH_LIMIT_PSQL ==> spec_definition_name(name).len()
            <= TYPENAME_LENGTH_LIMIT_PSQL,
        name.len() <= TYPENAME_LENGTH_LIMIT_PSQL ==> spec_definition_name(name) == name,
{
    if name.len() > TYPENAME_LENGTH_LIMIT_PSQL {
        lemma_mangle_from_bounded(name, 0, Seq::empty());
    }
}

/// Mangling idempotence: mangling a name twice yields the same result as
/// mangling it once.
pub proof fn lemma_definition_name_idempotent(name: Seq<char>)
    ensures
        spec_definition_name(spec_definition_name(name)) == spec_definition_name(name),
{
    lemma_definition_name_length(name);
}

/// Properties of a struct table's field columns: none of them is a primary
/// key, and every non-repeated field has a column under its schema column
/// name.
proof fn lemma_struct_columns_props(fields: Seq<FieldV>)
    ensures
        forall|j: int|
            0 <= j < spec_struct_columns(fields).len() ==> !(#[trigger] spec_struct_columns(
                fields,
            )[j]).primary_key,
        forall|i: int|
            0 <= i < fields.len() && !spec_is_vec(fields[i].ty) ==> exists|j: int|
                0 <= j < spec_struct_columns(fields).len() && (#[trigger] spec_struct_columns(
                    fields,
                )[j]).name == spec_column_name_of(fields[i].name),
    decreases fields.len(),
{
    if fields.len() > 0 {
        lemma_struct_columns_props(fields.drop_last());
        let prev = spec_struct_columns(fields.drop_last());
        let cols = spec_struct_columns(fields);
        assert forall|i: int|
            0 <= i < fields.len() && !spec_is_vec(fields[i].ty) implies exists|j: int|
            0 <= j < cols.len() && (#[trigger] cols[j]).name == spec_column_name_of(
                fields[i].name,
            ) by {
            if i < fields.len() - 1 {
                assert(fields.drop_last()[i] == fields[i]);
                let j = choose|j: int|
                    0 <= j < prev.len() && (#[trigger] prev[j]).name == spec_column_name_of(
                        fields.drop_last()[i].name,
                    );
                assert(cols[j].name == spec_column_name_of(fields[i].name));
            } else {
                assert(fields.last() == fields[i]);
                let j = prev.len() as int;
                assert(cols[j].name == spec_column_name_of(fields[i].name));
            }
        }
    }
}

/// Surrogate key injection: the table synthesized for a struct has the
/// surrogate key as its first and only primary-key column, and a field
/// colliding with the reserved name still gets its own column, under the
/// suffixed name, which differs from the surrogate's.
pub proof fn lemma_surrogate_key_injection(name: Seq<char>, fields: Seq<FieldV>)
    ensures
        spec_struct_defs(name, fields).len() >= 1,
        spec_struct_defs(name, fields)[0].name == name,
        spec_struct_defs(name, fields)[0].value is Table,
        ({
            let cols = spec_struct_defs(name, fields)[0].value->Table_0;
            &&& cols.len() >= 1
            &&& cols[0] == spec_id_column()
            &&& cols[0].primary_key
            &&& forall|j: int| 1 <= j < cols.len() ==> !(#[trigger] cols[j]).primary_key
            &&& forall|i: int|
                0 <= i < fields.len() && !spec_is_vec(fields[i].ty) && matches_reserved_key(
                    spec_trim(fields[i].name),
                ) ==> exists|j: int|
                    1 <= j < cols.len() && (#[trigger] cols[j]).name == spec_module_name(
                        fields[i].name,
                    ).push('_') && (#[trigger] cols[j]).name != spec_fk_column()
        }),
{
    lemma_struct_columns_props(fields);
    let cols = spec_struct_defs(name, fields)[0].value->Table_0;
    let inner = spec_struct_columns(fields);
    assert(cols =~= seq![spec_id_column()] + inner);
    reveal_strlit("id");
    assert forall|i: int|
        0 <= i < fields.len() && !spec_is_vec(fields[i].ty) && matches_reserved_key(
            spec_trim(fields[i].name),
        ) implies exists|j: int|
        1 <= j < cols.len() && (#[trigger] cols[j]).name == spec_module_name(fields[i].name).push(
            '_',
        ) && (#[trigger] cols[j]).name != spec_fk_column() by {
        let j0 = choose|j: int|
            0 <= j < inner.len() && (#[trigger] inner[j]).name == spec_column_name_of(
                fields[i].name,
            );
        let j = j0 + 1;
        assert(cols[j] == inner[j0]);
        assert(cols[j].name == spec_module_name(fields[i].name).push('_'));
        assert(cols[j].name.last() == '_');
        assert(spec_fk_column().len() == 2 && spec_fk_column()[1] == 'd');
        assert(cols[j].name != spec_fk_column());
    }
}

/// The number of non-repeated fields in a field list.
pub open spec fn spec_count_non_vec(fields: Seq<FieldV>) -> int
    decreases fields.len(),
{
    if fields.len() == 0 {
        0
    } else {
        spec_count_non_vec(fields.drop_last()) + if spec_is_vec(fields.last().ty) {
            0int
        } else {
            1int
        }
    }
}

/// The shape of the join table synthesized for one repeated-value field:
/// it is the only table among the synthesized definitions, it has exactly
/// the owner-reference column and the value column, and those two form a
/// composite primary key.
pub proof fn lemma_join_table_shape(owner: Seq<char>, entry: Seq<char>, value_sql: SqlTypeV)
    ensures
        spec_list_table_defs(owner, entry, value_sql).len() >= 3,
        spec_list_table_defs(owner, entry, value_sql)[0].name == entry,
        spec_list_table_defs(owner, entry, value_sql)[0].value is Table,
        ({
            let cols = spec_list_table_defs(owner, entry, value_sql)[0].value->Table_0;
            let cons = spec_list_table_defs(owner, entry, value_sql)[0].value->Table_1;
            &&& cols.len() == 2
            &&& cols[0].name == "list"@
            &&& cols[0].sql == SqlTypeV::NotNull(
                Box::new(
                    SqlTypeV::References(
                        owner,
                        spec_fk_column(),
                        Some(crate::sql::Action::Cascade),
                        Some(crate::sql::Action::Cascade),
                    ),
                ),
            )
            &&& cols[1].name == "value"@
            &&& cols[1].sql == value_sql
            &&& cons =~~= seq![ConstraintV::CombinedPrimaryKey(seq!["list"@, "value"@])]
        }),
        forall|k: int|
            1 <= k < spec_list_table_defs(owner, entry, value_sql).len() ==> !((
            #[trigger] spec_list_table_defs(owner, entry, value_sql)[k]).value is Table),
{
}

/// List normalization: a struct's repeated-value fields produce no column
/// on the owning table (its field columns number exactly the non-repeated
/// fields), and each repeated field's join table is synthesized under the
/// join-table name.
pub proof fn lemma_list_normalization(name: Seq<char>, fields: Seq<FieldV>)
    ensures
        spec_struct_columns(fields).len() == spec_count_non_vec(fields),
        forall|i: int|
            0 <= i < fields.len() && spec_is_vec(fields[i].ty) ==> exists|j: int|
                0 <= j < spec_struct_deferred(name, fields).len() && (
                #[trigger] spec_struct_deferred(name, fields)[j]).name
                    == spec_struct_list_entry_table_name(name, fields[i].name) && (
                #[trigger] spec_struct_deferred(name, fields)[j]).value is Table,
    decreases fields.len(),
{
    if fields.len() > 0 {
        lemma_list_normalization(name, fields.drop_last());
        let prev = spec_struct_deferred(name, fields.drop_last());
        let defs = spec_struct_deferred(name, fields);
        assert forall|i: int|
            0 <= i < fields.len() && spec_is_vec(fields[i].ty) implies exists|j: int|
            0 <= j < defs.len() && (#[trigger] defs[j]).name == spec_struct_list_entry_table_name(
                name,
                fields[i].name,
            ) && (#[trigger] defs[j]).value is Table by {
            if i < fields.len() - 1 {
                assert(fields.drop_last()[i] == fields[i]);
                let j = choose|j: int|
                    0 <= j < prev.len() && (#[trigger] prev[j]).name
                        == spec_struct_list_entry_table_name(
                        name,
                        fields.drop_last()[i].name,
                    ) && (#[trigger] prev[j]).value is Table;
                assert(defs[j] == prev[j]);
            } else {
                assert(fields.last() == fields[i]);
                let j = prev.len() as int;
                assert(defs[j] == spec_list_table_defs(
                    name,
                    spec_struct_list_entry_table_name(name, fields[i].name),
                    spec_to_sql(crate::rust::spec_inner_type(fields[i].ty)),
                )[0]);
            }
        }
    }
}

/// Every auxiliary definition appended after a table is an index or an
/// abandon function, never another table.
proof fn lemma_index_and_abandon_no_table(name: Seq<char>, pairs: Seq<(Seq<char>, RustTypeV)>)
    ensures
        forall|k: int|
            0 <= k < spec_indexes(name, pairs).len() ==> (#[trigger] spec_indexes(name, pairs)[k]).value is Index,
        forall|k: int|
            0 <= k < spec_index_and_abandon(name, pairs).len() ==> !((
            #[trigger] spec_index_and_abandon(name, pairs)[k]).value is Table),
    decreases pairs.len(),
{
    if pairs.len() > 0 {
        lemma_index_and_abandon_no_table(name, pairs.drop_last());
    }
    let idx = spec_indexes(name, pairs);
    assert forall|k: int|
        0 <= k < idx.len() implies (#[trigger] idx[k]).value is Index by {
        if pairs.len() > 0 {
            let prev = spec_indexes(name, pairs.drop_last());
            if k < prev.len() {
                assert(idx[k] == prev[k]);
            }
        }
    }
}

/// Tagged-union flattening: a tagged union with N variants, none of which
/// claims the reserved surrogate-key name, produces exactly one table,
/// whose columns are the surrogate key followed by one nullable,
/// non-primary column per variant, with exactly one exactly-one-non-null
/// constraint covering precisely those N variant columns.
pub proof fn lemma_tagged_union_flattening(name: Seq<char>, variants: Seq<DataVariantV>)
    requires
        forall|i: int|
            0 <= i < variants.len() ==> !matches_reserved_key((#[trigger] variants[i]).name)
                && !matches_reserved_key(spec_trim(variants[i].name)),
    ensures
        spec_data_enum_defs(name, variants).len() >= 1,
        spec_data_enum_defs(name, variants)[0].name == name,
        spec_data_enum_defs(name, variants)[0].value is Table,
        ({
            let cols = spec_data_enum_defs(name, variants)[0].value->Table_0;
            let cons = spec_data_enum_defs(name, variants)[0].value->Table_1;
            &&& cols.len() == variants.len() + 1
            &&& cols[0] == spec_id_column()
            &&& forall|i: int|
                0 <= i < variants.len() ==> !((#[trigger] cols[i + 1]).sql is NotNull)
                    && !cols[i + 1].primary_key && cols[i + 1].name == spec_module_name(
                    variants[i].name,
                )
            &&& cons.len() == 1
            &&& cons[0] is OneNotNull
            &&& cons[0]->OneNotNull_0.len() == variants.len()
            &&& forall|i: int|
                0 <= i < variants.len() ==> (#[trigger] cons[0]->OneNotNull_0[i]) == cols[i + 1].name
        }),
        forall|k: int|
            1 <= k < spec_data_enum_defs(name, variants).len() ==> !((
            #[trigger] spec_data_enum_defs(name, variants)[k]).value is Table),
{
    let defs = spec_data_enum_defs(name, variants);
    let cols = defs[0].value->Table_0;
    assert(!crate::convert::spec_has_reserved_variant(variants));
    assert(cols =~= seq![spec_id_column()] + spec_variant_columns(variants));
    assert forall|i: int|
        0 <= i < variants.len() implies !((#[trigger] cols[i + 1]).sql is NotNull) && !cols[i
        + 1].primary_key && cols[i + 1].name == spec_module_name(variants[i].name) by {
        assert(cols[i + 1] == spec_variant_columns(variants)[i]);
        lemma_to_sql_no_nested_not_null(variants[i].ty);
        assert(!matches_reserved_key(spec_trim(variants[i].name)));
    }
    lemma_index_and_abandon_no_table(name, crate::convert::spec_variant_pairs(variants));
    assert forall|k: int|
        1 <= k < defs.len() implies !((#[trigger] defs[k]).value is Table) by {
        let aux = spec_index_and_abandon(name, crate::convert::spec_variant_pairs(variants));
        assert(defs[k] == aux[k - 1]);
    }
}

/// Pairwise distinct definition names.
pub open spec fn spec_distinct_names(defs: Seq<DefinitionV<SqlV>>) -> bool {
    forall|i: int, j: int|
        0 <= i < j < defs.len() ==> (#[trigger] defs[i]).name != (#[trigger] defs[j]).name
}

/// A rank assigns every definition name a value below the number of
/// definitions.
pub open spec fn spec_rank_bounds(
    defs: Seq<DefinitionV<SqlV>>,
    rank: Map<Seq<char>, int>,
) -> bool {
    forall|a: int|
        0 <= a < defs.len() ==> rank.contains_key((#[trigger] defs[a]).name) && 0 <= rank[(defs[
            a]).name] < defs.len()
}

/// A rank grows strictly along every resolvable reference edge; such a
/// rank exists exactly when the reference graph is free of cycles.
pub open spec fn spec_rank_edges(
    defs: Seq<DefinitionV<SqlV>>,
    rank: Map<Seq<char>, int>,
) -> bool {
    forall|a: int, t: Seq<char>|
        0 <= a < defs.len() && (#[trigger] spec_ref_names(defs[a]).contains(t)) && spec_find_def(
            defs,
            t,
        ) is Some ==> rank[t] > rank[defs[a].name]
}

/// An acyclicity witness for the reference graph of a definition list.
pub open spec fn spec_rank_ok(defs: Seq<DefinitionV<SqlV>>, rank: Map<Seq<char>, int>) -> bool {
    spec_rank_bounds(defs, rank) && spec_rank_edges(defs, rank)
}

/// Every recorded depth stays at or below the name's rank.
pub open spec fn map_below_rank(rank: Map<Seq<char>, int>, m: Map<Seq<char>, int>) -> bool {
    forall|k: Seq<char>| #[trigger] m.contains_key(k) ==> rank.contains_key(k) && m[k] <= rank[k]
}

/// The recorded depth of every definition the given one references exceeds
/// its own recorded depth.
pub open spec fn edge_ok_at(
    defs: Seq<DefinitionV<SqlV>>,
    m: Map<Seq<char>, int>,
    a: int,
) -> bool {
    forall|t: Seq<char>|
        (#[trigger] spec_ref_names(defs[a]).contains(t)) && spec_find_def(defs, t) is Some
            ==> m.contains_key(t) && m[t] >= m[defs[a].name] + 1
}

/// Every recorded definition whose rank exceeds `r` already satisfies its
/// edge inequalities; during a walk only the chain of ancestors, all of
/// rank at most `r`, is still being re-established.
pub open spec fn good_above(
    defs: Seq<DefinitionV<SqlV>>,
    rank: Map<Seq<char>, int>,
    m: Map<Seq<char>, int>,
    r: int,
) -> bool {
    forall|a: int|
        0 <= a < defs.len() && m.contains_key((#[trigger] defs[a]).name) && rank[defs[a].name] > r
            ==> edge_ok_at(defs, m, a)
}

proof fn lemma_find_from_props(defs: Seq<DefinitionV<SqlV>>, name: Seq<char>, i: int)
    ensures
        spec_find_from(defs, name, i) is Some ==> {
            let j = spec_find_from(defs, name, i)->Some_0;
            &&& i <= j < defs.len()
            &&& defs[j].name == name
        },
    decreases defs.len() - i,
{
    if i < 0 || i >= defs.len() {
    } else if defs[i].name == name {
    } else {
        lemma_find_from_props(defs, name, i + 1);
    }
}

proof fn lemma_walk_ok(
    defs: Seq<DefinitionV<SqlV>>,
    rank: Map<Seq<char>, int>,
    current: int,
    m: Map<Seq<char>, int>,
    depth: int,
    r: int,
)
    requires
        spec_distinct_names(defs),
        spec_rank_ok(defs, rank),
        map_below_rank(rank, m),
        good_above(defs, rank, m, r),
        0 <= current < defs.len(),
        0 <= depth <= rank[defs[current].name],
        r < rank[defs[current].name],
    ensures
        ({
            let m2 = spec_walk(defs, current, m, depth);
            &&& map_below_rank(rank, m2)
            &&& good_above(defs, rank, m2, r)
            &&& m2.contains_key(defs[current].name)
            &&& m2[defs[current].name] >= depth
            &&& forall|k: Seq<char>|
                #[trigger] m.contains_key(k) ==> m2.contains_key(k) && m2[k] >= m[k]
            &&& forall|k: Seq<char>|
                #[trigger] m2.contains_key(k) && !(m.contains_key(k) && m2[k] == m[k]) ==> (k
                    == defs[current].name || (rank.contains_key(k) && rank[k] > rank[(defs[
                    current]).name]))
        }),
    decreases walk_budget(defs, depth), 0int,
{
    let name = defs[current].name;
    let raised = if m.contains_key(name) && m[name] >= depth {
        m[name]
    } else {
        depth
    };
    let m1 = m.insert(name, raised);
    let m2 = spec_walk(defs, current, m, depth);
    assert(raised <= rank[name]);
    assert(map_below_rank(rank, m1));
    assert forall|a: int|
        0 <= a < defs.len() && m1.contains_key((#[trigger] defs[a]).name) && rank[defs[a].name]
            > rank[name] implies edge_ok_at(defs, m1, a) by {
        assert(defs[a].name != name);
        assert(m.contains_key(defs[a].name));
        assert(edge_ok_at(defs, m, a));
        assert forall|t: Seq<char>|
            (#[trigger] spec_ref_names(defs[a]).contains(t)) && spec_find_def(defs, t) is Some
                implies m1.contains_key(t) && m1[t] >= m1[defs[a].name] + 1 by {
            assert(m.contains_key(t) && m[t] >= m[defs[a].name] + 1);
        }
    }
    let names = spec_ref_names(defs[current]);
    assert forall|j: int|
        0 <= j < names.len() && spec_find_def(defs, #[trigger] names[j]) is Some implies raised
        + 1 <= rank[names[j]] && rank[names[j]] >= rank[name] + 1 by {
        assert(spec_ref_names(defs[current]).contains(names[j]));
    }
    lemma_walk_names_ok(defs, rank, names, m1, raised + 1, rank[name], rank[name] + 1);
    let m3 = spec_walk_names(defs, names, m1, raised + 1);
    assert(m2 == m3);
    assert(m1.contains_key(name) && m1[name] == raised);
    assert(m3.contains_key(name) && m3[name] >= raised);
    assert(m3[name] == raised) by {
        if !(m1.contains_key(name) && m3[name] == m1[name]) {
            assert(rank.contains_key(name) && rank[name] >= rank[name] + 1);
        }
    }
    assert forall|k: Seq<char>| #[trigger] m.contains_key(k) implies m3.contains_key(k) && m3[k]
        >= m[k] by {
        assert(m1.contains_key(k) && m1[k] >= m[k]);
    }
    assert forall|k: Seq<char>|
        #[trigger] m3.contains_key(k) && !(m.contains_key(k) && m3[k] == m[k]) implies (k == name
        || (rank.contains_key(k) && rank[k] > rank[name])) by {
        if k != name {
            if m1.contains_key(k) && m3[k] == m1[k] {
                assert(m.contains_key(k) && m1[k] == m[k]);
            } else {
                assert(rank.contains_key(k) && rank[k] >= rank[name] + 1);
            }
        }
    }
    assert(edge_ok_at(defs, m3, current)) by {
        assert forall|t: Seq<char>|
            (#[trigger] spec_ref_names(defs[current]).contains(t)) && spec_find_def(
                defs,
                t,
            ) is Some implies m3.contains_key(t) && m3[t] >= m3[defs[current].name] + 1 by {
            let j = choose|j: int| 0 <= j < names.len() && names[j] == t;
            assert(m3.contains_key(names[j]) && m3[names[j]] >= raised + 1);
        }
    }
    assert forall|a: int|
        0 <= a < defs.len() && m3.contains_key((#[trigger] defs[a]).name) && rank[defs[a].name]
            > r implies edge_ok_at(defs, m3, a) by {
        if rank[defs[a].name] > rank[name] {
            assert(edge_ok_at(defs, m3, a));
        } else if defs[a].name == name {
            assert(edge_ok_at(defs, m3, current));
            assert forall|t: Seq<char>|
                (#[trigger] spec_ref_names(defs[a]).contains(t)) && spec_find_def(
                    defs,
                    t,
                ) is Some implies m3.contains_key(t) && m3[t] >= m3[defs[a].name] + 1 by {
                assert(spec_find_def(defs, defs[a].name) == spec_find_def(defs, name));
                lemma_find_from_props(defs, t, 0);
                assert(spec_ref_names(defs[current]).contains(t)
                    ==> m3.contains_key(t) && m3[t] >= m3[name] + 1);
                if a != current {
                    assert(defs[a].name != defs[current].name);
                    assert(false);
                }
            }
        } else {
            assert(!(m1.contains_key(defs[a].name) && m1[defs[a].name] != m[defs[a].name]
                && defs[a].name != name));
            assert(m3.contains_key(defs[a].name));
            if !(m1.contains_key(defs[a].name) && m3[defs[a].name] == m1[defs[a].name]) {
                assert(rank[defs[a].name] >= rank[name] + 1);
                assert(false);
            }
            assert(m1.contains_key(defs[a].name));
            assert(m1[defs[a].name] == m[defs[a].name]);
            assert(m.contains_key(defs[a].name));
            assert(edge_ok_at(defs, m, a));
            assert forall|t: Seq<char>|
                (#[trigger] spec_ref_names(defs[a]).contains(t)) && spec_find_def(
                    defs,
                    t,
                ) is Some implies m3.contains_key(t) && m3[t] >= m3[defs[a].name] + 1 by {
                assert(m.contains_key(t) && m[t] >= m[defs[a].name] + 1);
                assert(m1.contains_key(t) && m1[t] >= m[t]);
                assert(m3.contains_key(t) && m3[t] >= m1[t]);
                assert(m3[defs[a].name] == m[defs[a].name]);
            }
        }
    }
}

proof fn lemma_walk_names_ok(
    defs: Seq<DefinitionV<SqlV>>,
    rank: Map<Seq<char>, int>,
    names: Seq<Seq<char>>,
    m: Map<Seq<char>, int>,
    depth: int,
    r: int,
    bound: int,
)
    requires
        spec_distinct_names(defs),
        spec_rank_ok(defs, rank),
        map_below_rank(rank, m),
        good_above(defs, rank, m, r),
        0 <= depth,
        bound > r,
        forall|j: int|
            0 <= j < names.len() && spec_find_def(defs, #[trigger] names[j]) is Some ==> depth
                <= rank[names[j]] && rank[names[j]] >= bound,
    ensures
        ({
            let m2 = spec_walk_names(defs, names, m, depth);
            &&& map_below_rank(rank, m2)
            &&& good_above(defs, rank, m2, r)
            &&& forall|k: Seq<char>|
                #[trigger] m.contains_key(k) ==> m2.contains_key(k) && m2[k] >= m[k]
            &&& forall|k: Seq<char>|
                #[trigger] m2.contains_key(k) && !(m.contains_key(k) && m2[k] == m[k])
                    ==> rank.contains_key(k) && rank[k] >= bound
            &&& forall|j: int|
                0 <= j < names.len() && spec_find_def(defs, #[trigger] names[j]) is Some
                    ==> m2.contains_key(names[j]) && m2[names[j]] >= depth
        }),
    decreases walk_budget(defs, depth), 1int + names.len(),
{
    if names.len() <= 0 {
    } else {
        let t = names[0];
        let after_first = match spec_find_def(defs, t) {
            Some(i) => spec_walk(defs, i, m, depth),
            None => m,
        };
        match spec_find_def(defs, t) {
            Some(b) => {
                lemma_find_from_props(defs, t, 0);
                assert(defs[b].name == t);
                lemma_walk_ok(defs, rank, b, m, depth, r);
            },
            None => {},
        }
        assert forall|j: int|
            0 <= j < names.drop_first().len() && spec_find_def(
                defs,
                #[trigger] names.drop_first()[j],
            ) is Some implies depth <= rank[names.drop_first()[j]] && rank[names.drop_first()[j]]
            >= bound by {
            assert(names.drop_first()[j] == names[j + 1]);
        }
        lemma_walk_names_ok(defs, rank, names.drop_first(), after_first, depth, r, bound);
        let m2 = spec_walk_names(defs, names, m, depth);
        assert(m2 == spec_walk_names(defs, names.drop_first(), after_first, depth));
        assert forall|j: int|
            0 <= j < names.len() && spec_find_def(defs, #[trigger] names[j]) is Some
                implies m2.contains_key(names[j]) && m2[names[j]] >= depth by {
            if j == 0 {
                assert(after_first.contains_key(t) && after_first[t] >= depth);
            } else {
                assert(names.drop_first()[j - 1] == names[j]);
            }
        }
    }
}

proof fn lemma_depths_upto_ok(defs: Seq<DefinitionV<SqlV>>, rank: Map<Seq<char>, int>, k: int)
    requires
        spec_distinct_names(defs),
        spec_rank_ok(defs, rank),
        0 <= k <= defs.len(),
    ensures
        ({
            let m = spec_depths_upto(defs, k);
            &&& map_below_rank(rank, m)
            &&& good_above(defs, rank, m, -1)
            &&& forall|a: int|
                0 <= a < k ==> m.contains_key((#[trigger] defs[a]).name)
        }),
    decreases k,
{
    if k > 0 {
        lemma_depths_upto_ok(defs, rank, k - 1);
        lemma_walk_ok(defs, rank, k - 1, spec_depths_upto(defs, k - 1), 0, -1);
    }
}

/// The ordering property: in a model with distinct definition names whose
/// reference graph is free of cycles (witnessed by a rank that grows along
/// every resolvable edge), every definition that references another gets a
/// strictly smaller reference depth than its target, so the descending
/// sort emits the target first and a renderer can forward-declare nothing.
pub proof fn lemma_ordering_property(
    defs: Seq<DefinitionV<SqlV>>,
    rank: Map<Seq<char>, int>,
    a: int,
    t: Seq<char>,
)
    requires
        spec_distinct_names(defs),
        spec_rank_ok(defs, rank),
        0 <= a < defs.len(),
        spec_ref_names(defs[a]).contains(t),
        spec_find_def(defs, t) is Some,
    ensures
        ({
            let dm = spec_depth_map(defs);
            &&& dm.contains_key(defs[a].name)
            &&& dm.contains_key(t)
            &&& spec_depth_of(dm, t) >= spec_depth_of(dm, defs[a].name) + 1
        }),
{
    lemma_depths_upto_ok(defs, rank, defs.len() as int);
    let dm = spec_depth_map(defs);
    assert(edge_ok_at(defs, dm, a));
}

proof fn lemma_bucket_members(defs: Seq<DefinitionV<SqlV>>, dm: Map<Seq<char>, int>, d: int)
    ensures
        forall|p: int|
            0 <= p < spec_bucket(defs, dm, d).len() ==> spec_depth_of(
                dm,
                (#[trigger] spec_bucket(defs, dm, d)[p]).name,
            ) == d,
    decreases defs.len(),
{
    if defs.len() > 0 {
        lemma_bucket_members(defs.drop_last(), dm, d);
        let prev = spec_bucket(defs.drop_last(), dm, d);
        let cur = spec_bucket(defs, dm, d);
        assert forall|p: int|
            0 <= p < cur.len() implies spec_depth_of(dm, (#[trigger] cur[p]).name) == d by {
            if p < prev.len() {
                assert(cur[p] == prev[p]);
            }
        }
    }
}

proof fn lemma_buckets_desc_sorted(defs: Seq<DefinitionV<SqlV>>, dm: Map<Seq<char>, int>, k: int)
    requires
        0 <= k,
    ensures
        forall|p: int|
            0 <= p < spec_buckets_desc(defs, dm, k).len() ==> spec_depth_of(
                dm,
                (#[trigger] spec_buckets_desc(defs, dm, k)[p]).name,
            ) >= defs.len() - k,
        forall|p: int, q: int|
            0 <= p < q < spec_buckets_desc(defs, dm, k).len() ==> spec_depth_of(
                dm,
                (#[trigger] spec_buckets_desc(defs, dm, k)[p]).name,
            ) >= spec_depth_of(dm, (#[trigger] spec_buckets_desc(defs, dm, k)[q]).name),
    decreases k,
{
    if k > 0 {
        lemma_buckets_desc_sorted(defs, dm, k - 1);
        lemma_bucket_members(defs, dm, defs.len() - k);
        let prev = spec_buckets_desc(defs, dm, k - 1);
        let cur = spec_buckets_desc(defs, dm, k);
        assert forall|p: int|
            0 <= p < cur.len() implies spec_depth_of(dm, (#[trigger] cur[p]).name) >= defs.len()
            - k by {
            if p < prev.len() {
                assert(cur[p] == prev[p]);
            } else {
                assert(cur[p] == spec_bucket(defs, dm, defs.len() - k)[p - prev.len()]);
            }
        }
        assert forall|p: int, q: int|
            0 <= p < q < cur.len() implies spec_depth_of(dm, (#[trigger] cur[p]).name)
            >= spec_depth_of(dm, (#[trigger] cur[q]).name) by {
            if q < prev.len() {
                assert(cur[p] == prev[p] && cur[q] == prev[q]);
            } else {
                assert(cur[q] == spec_bucket(defs, dm, defs.len() - k)[q - prev.len()]);
                assert(spec_depth_of(dm, cur[q].name) == defs.len() - k);
                if p < prev.len() {
                    assert(cur[p] == prev[p]);
                    assert(spec_depth_of(dm, cur[p].name) >= defs.len() - (k - 1));
                } else {
                    assert(cur[p] == spec_bucket(defs, dm, defs.len() - k)[p - prev.len()]);
                }
            }
        }
    }
}

/// The emission order: the final definition list is sorted by descending
/// reference depth, so a definition with the greater depth — by
/// [`lemma_ordering_property`], anything that is referenced — stands before
/// everything of lesser depth that references it.
pub proof fn lemma_sorted_descending(defs: Seq<DefinitionV<SqlV>>, p: int, q: int)
    requires
        0 <= p < q < spec_sorted(defs).len(),
    ensures
        spec_depth_of(spec_depth_map(defs), spec_sorted(defs)[p].name) >= spec_depth_of(
            spec_depth_map(defs),
            spec_sorted(defs)[q].name,
        ),
{
    lemma_buckets_desc_sorted(defs, spec_depth_map(defs), defs.len() as int);
}

/// Every recorded depth lies between zero and `n - 1`.
pub open spec fn dm_in_range(m: Map<Seq<char>, int>, n: int) -> bool {
    forall|k: Seq<char>| #[trigger] m.contains_key(k) ==> 0 <= m[k] <= n - 1
}

proof fn lemma_walk_in_range(
    defs: Seq<DefinitionV<SqlV>>,
    current: int,
    m: Map<Seq<char>, int>,
    depth: int,
)
    requires
        dm_in_range(m, defs.len() as int),
        0 <= depth,
    ensures
        dm_in_range(spec_walk(defs, current, m, depth), defs.len() as int),
    decreases walk_budget(defs, depth), 0int,
{
    if depth < 0 || depth >= defs.len() || current < 0 || current >= defs.len() {
    } else {
        let name = defs[current].name;
        let raised = if m.contains_key(name) && m[name] >= depth {
            m[name]
        } else {
            depth
        };
        lemma_walk_names_in_range(
            defs,
            spec_ref_names(defs[current]),
            m.insert(name, raised),
            raised + 1,
        );
    }
}

proof fn lemma_walk_names_in_range(
    defs: Seq<DefinitionV<SqlV>>,
    names: Seq<Seq<char>>,
    m: Map<Seq<char>, int>,
    depth: int,
)
    requires
        dm_in_range(m, defs.len() as int),
        0 <= depth,
    ensures
        dm_in_range(spec_walk_names(defs, names, m, depth), defs.len() as int),
    decreases walk_budget(defs, depth), 1int + names.len(),
{
    if names.len() <= 0 {
    } else {
        match spec_find_def(defs, names[0]) {
            Some(i) => {
                lemma_walk_in_range(defs, i, m, depth);
            },
            None => {},
        }
        let after_first = match spec_find_def(defs, names[0]) {
            Some(i) => spec_walk(defs, i, m, depth),
            None => m,
        };
        lemma_walk_names_in_range(defs, names.drop_first(), after_first, depth);
    }
}

proof fn lemma_depth_map_in_range(defs: Seq<DefinitionV<SqlV>>, k: int)
    requires
        0 <= k <= defs.len(),
    ensures
        dm_in_range(spec_depths_upto(defs, k), defs.len() as int),
    decreases k,
{
    if k > 0 {
        lemma_depth_map_in_range(defs, k - 1);
        lemma_walk_in_range(defs, k - 1, spec_depths_upto(defs, k - 1), 0);
    }
}

proof fn lemma_bucket_count(
    defs: Seq<DefinitionV<SqlV>>,
    dm: Map<Seq<char>, int>,
    d: int,
    x: DefinitionV<SqlV>,
)
    ensures
        spec_bucket(defs, dm, d).to_multiset().count(x) == if spec_depth_of(dm, x.name) == d {
            defs.to_multiset().count(x)
        } else {
            0
        },
    decreases defs.len(),
{
    broadcast use vstd::seq_lib::group_to_multiset_ensures;

    if defs.len() == 0 {
        assert(spec_bucket(defs, dm, d) =~= Seq::<DefinitionV<SqlV>>::empty());
        assert(defs.to_multiset().count(x) == 0);
        assert(spec_bucket(defs, dm, d).to_multiset().count(x) == 0);
    } else {
        lemma_bucket_count(defs.drop_last(), dm, d, x);
        let prev = spec_bucket(defs.drop_last(), dm, d);
        let last = defs.last();
        assert(defs =~= defs.drop_last().push(last));
        assert(defs.to_multiset() =~= defs.drop_last().to_multiset().insert(last));
        if spec_depth_of(dm, last.name) == d {
            assert(spec_bucket(defs, dm, d) =~= prev.push(last));
            assert(spec_bucket(defs, dm, d).to_multiset() =~= prev.to_multiset().insert(last));
        } else {
            assert(spec_bucket(defs, dm, d) == prev);
            if x == last {
                assert(spec_depth_of(dm, x.name) != d);
            }
        }
    }
}

proof fn lemma_buckets_desc_count(
    defs: Seq<DefinitionV<SqlV>>,
    dm: Map<Seq<char>, int>,
    k: int,
    x: DefinitionV<SqlV>,
)
    requires
        0 <= k,
    ensures
        spec_buckets_desc(defs, dm, k).to_multiset().count(x) == if defs.len() - k
            <= spec_depth_of(dm, x.name) <= defs.len() - 1 {
            defs.to_multiset().count(x)
        } else {
            0
        },
    decreases k,
{
    broadcast use vstd::seq_lib::group_to_multiset_ensures;

    if k <= 0 {
        assert(spec_buckets_desc(defs, dm, k) =~= Seq::<DefinitionV<SqlV>>::empty());
        assert(spec_buckets_desc(defs, dm, k).to_multiset().count(x) == 0);
    } else {
        lemma_buckets_desc_count(defs, dm, k - 1, x);
        lemma_bucket_count(defs, dm, defs.len() - k, x);
        vstd::seq_lib::lemma_multiset_commutative(
            spec_buckets_desc(defs, dm, k - 1),
            spec_bucket(defs, dm, defs.len() - k),
        );
    }
}

/// The reordering is a permutation: the sorted definition list holds
/// exactly the synthesized definitions, each as often as it was
/// synthesized.
pub proof fn lemma_sorted_permutation(defs: Seq<DefinitionV<SqlV>>)
    ensures
        spec_sorted(defs).to_multiset() == defs.to_multiset(),
{
    broadcast use vstd::seq_lib::group_to_multiset_ensures;

    let n = defs.len() as int;
    let dm = spec_depth_map(defs);
    lemma_depth_map_in_range(defs, n);
    assert forall|x: DefinitionV<SqlV>|
        spec_sorted(defs).to_multiset().count(x) == defs.to_multiset().count(x) by {
        lemma_buckets_desc_count(defs, dm, n, x);
        if defs.to_multiset().count(x) > 0 {
            assert(defs.contains(x));
            assert(n >= 1);
            if dm.contains_key(x.name) {
                assert(0 <= dm[x.name] <= n - 1);
            }
            assert(0 <= spec_depth_of(dm, x.name) <= n - 1);
        }
    }
    assert(spec_sorted(defs).to_multiset() =~= defs.to_multiset());
}

} // verus!
