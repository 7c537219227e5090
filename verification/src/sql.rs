//! The schema model: column types, columns, constraints and the schema
//! definition variants that the renderer turns into DDL text.

use vstd::prelude::*;

use crate::ident::{mangle_definition_name, spec_definition_name};
use crate::rust::{
    Charset, EncodingOrdering, Range, RustType, RustTypeV, Size, spec_no_option, view_rust_type,
};

verus! {

/// Referential action attached to a foreign-key reference.
#[derive(Debug, Clone, Copy, PartialEq, Eq, Structural)]
pub enum Action {
    Cascade,
    Restrict,
}

/// A column type of the schema model. Nullability is represented by the
/// absence of the `NotNull` wrapper: every type not explicitly wrapped is
/// implicitly nullable.
#[derive(Debug, PartialEq)]
pub enum SqlType {
    SmallInt,
    Integer,
    BigInt,
    Serial,
    Boolean,
    Text,
    Array(Box<SqlType>),
    NotNull(Box<SqlType>),
    ByteArray,
    NullByteArray,
    BitsReprByByteArrayAndBitsLen,
    References(String, String, Option<Action>, Option<Action>),
}

/// Mathematical model of a [`SqlType`]: the same shape with identifier
/// character sequences in place of strings.
#[verifier::ext_equal]
pub enum SqlTypeV {
    SmallInt,
    Integer,
    BigInt,
    Serial,
    Boolean,
    Text,
    Array(Box<SqlTypeV>),
    NotNull(Box<SqlTypeV>),
    ByteArray,
    NullByteArray,
    BitsReprByByteArrayAndBitsLen,
    References(Seq<char>, Seq<char>, Option<Action>, Option<Action>),
}

pub open spec fn view_sql_type(t: SqlType) -> SqlTypeV
    decreases t,
{
    match t {
        SqlType::SmallInt => SqlTypeV::SmallInt,
        SqlType::Integer => SqlTypeV::Integer,
        SqlType::BigInt => SqlTypeV::BigInt,
        SqlType::Serial => SqlTypeV::Serial,
        SqlType::Boolean => SqlTypeV::Boolean,
        SqlType::Text => SqlTypeV::Text,
        SqlType::Array(inner) => SqlTypeV::Array(Box::new(view_sql_type(*inner))),
        SqlType::NotNull(inner) => SqlTypeV::NotNull(Box::new(view_sql_type(*inner))),
        SqlType::ByteArray => SqlTypeV::ByteArray,
        SqlType::NullByteArray => SqlTypeV::NullByteArray,
        SqlType::BitsReprByByteArrayAndBitsLen => SqlTypeV::BitsReprByByteArrayAndBitsLen,
        SqlType::References(table, column, on_delete, on_update) => SqlTypeV::References(
            table@,
            column@,
            on_delete,
            on_update,
        ),
    }
}

impl View for SqlType {
    type V = SqlTypeV;

    open spec fn view(&self) -> SqlTypeV {
        view_sql_type(*self)
    }
}

/// Strip one `NotNull` wrapper, if present.
pub open spec fn spec_nullable(t: SqlTypeV) -> SqlTypeV {
    match t {
        SqlTypeV::NotNull(inner) => *inner,
        other => other,
    }
}

impl SqlType {
    /// The nullable form of this type, by reference: strips one `NotNull`
    /// wrapper if present.
    pub fn as_nullable(&self) -> (r: &Self)
        ensures
            r@ == spec_nullable(self@),
    {
        match self {
            SqlType::NotNull(inner) => inner,
            other => other,
        }
    }

    /// The nullable form of this type, by value: strips one `NotNull`
    /// wrapper if present.
    pub fn nullable(self) -> (r: Self)
        ensures
            r@ == spec_nullable(self@),
    {
        match self {
            SqlType::NotNull(inner) => *inner,
            other => other,
        }
    }

    /// Wrap this type to be not-null.
    pub fn not_null(self) -> (r: Self)
        ensures
            r@ == SqlTypeV::NotNull(Box::new(self@)),
    {
        SqlType::NotNull(Box::new(self))
    }
}

impl Clone for SqlType {
    /// A deep copy that is equal to the original.
    fn clone(&self) -> (r: Self)
        ensures
            r == *self,
        decreases *self,
    {
        match self {
            SqlType::SmallInt => SqlType::SmallInt,
            SqlType::Integer => SqlType::Integer,
            SqlType::BigInt => SqlType::BigInt,
            SqlType::Serial => SqlType::Serial,
            SqlType::Boolean => SqlType::Boolean,
            SqlType::Text => SqlType::Text,
            SqlType::Array(inner) => SqlType::Array(Box::new((**inner).clone())),
            SqlType::NotNull(inner) => SqlType::NotNull(Box::new((**inner).clone())),
            SqlType::ByteArray => SqlType::ByteArray,
            SqlType::NullByteArray => SqlType::NullByteArray,
            SqlType::BitsReprByByteArrayAndBitsLen => SqlType::BitsReprByByteArrayAndBitsLen,
            SqlType::References(table, column, on_delete, on_update) => SqlType::References(
                table.clone(),
                column.clone(),
                match on_delete {
                    Some(a) => Some(*a),
                    None => None,
                },
                match on_update {
                    Some(a) => Some(*a),
                    None => None,
                },
            ),
        }
    }
}

/// The schema-side name of the synthesized surrogate-key column, and the
/// column every foreign key targets.
pub open spec fn spec_fk_column() -> Seq<char> {
    "id"@
}

/// The type mapping from a structural field type to a column type: total,
/// pure and deterministic. Every result not already nullable is wrapped
/// not-null; an optional wrapper strips it, a defaulted wrapper is passed
/// through, and a reference becomes a cascading foreign key onto the
/// target's surrogate key.
pub open spec fn spec_to_sql(t: RustTypeV) -> SqlTypeV
    decreases t,
{
    match t {
        RustTypeV::Bool => SqlTypeV::NotNull(Box::new(SqlTypeV::Boolean)),
        RustTypeV::Null => SqlTypeV::NullByteArray,
        RustTypeV::U8(_) => SqlTypeV::NotNull(Box::new(SqlTypeV::SmallInt)),
        RustTypeV::I8(_) => SqlTypeV::NotNull(Box::new(SqlTypeV::SmallInt)),
        RustTypeV::U16(r) => if r.1 <= 0x7fff {
            SqlTypeV::NotNull(Box::new(SqlTypeV::SmallInt))
        } else {
            SqlTypeV::NotNull(Box::new(SqlTypeV::Integer))
        },
        RustTypeV::I16(_) => SqlTypeV::NotNull(Box::new(SqlTypeV::SmallInt)),
        RustTypeV::U32(r) => if r.1 <= 0x7fffffff {
            SqlTypeV::NotNull(Box::new(SqlTypeV::Integer))
        } else {
            SqlTypeV::NotNull(Box::new(SqlTypeV::BigInt))
        },
        RustTypeV::I32(_) => SqlTypeV::NotNull(Box::new(SqlTypeV::Integer)),
        RustTypeV::U64(_) => SqlTypeV::NotNull(Box::new(SqlTypeV::BigInt)),
        RustTypeV::I64(_) => SqlTypeV::NotNull(Box::new(SqlTypeV::BigInt)),
        RustTypeV::String(_, _) => SqlTypeV::NotNull(Box::new(SqlTypeV::Text)),
        RustTypeV::VecU8(_) => SqlTypeV::NotNull(Box::new(SqlTypeV::ByteArray)),
        RustTypeV::BitVec(_) => SqlTypeV::NotNull(
            Box::new(SqlTypeV::BitsReprByByteArrayAndBitsLen),
        ),
        RustTypeV::Vec(inner, _, _) => SqlTypeV::NotNull(
            Box::new(SqlTypeV::Array(Box::new(spec_to_sql(*inner)))),
        ),
        RustTypeV::Option(inner) => spec_nullable(spec_to_sql(*inner)),
        RustTypeV::Default(inner) => spec_to_sql(*inner),
        RustTypeV::Complex(name, _) => SqlTypeV::NotNull(
            Box::new(
                SqlTypeV::References(
                    name,
                    spec_fk_column(),
                    Some(Action::Cascade),
                    Some(Action::Cascade),
                ),
            ),
        ),
    }
}

/// Conversion of a structural field type into its column type.
pub trait ToSql {
    /// The column type this value maps to, as a mathematical value.
    spec fn to_sql_spec(&self) -> SqlTypeV;

    /// Maps this value to its column type.
    fn to_sql(&self) -> (r: SqlType)
        ensures
            r@ == self.to_sql_spec(),
    ;
}

impl ToSql for RustType {
    open spec fn to_sql_spec(&self) -> SqlTypeV {
        spec_to_sql(self@)
    }

    fn to_sql(&self) -> (r: SqlType)
        decreases *self,
    {
        match self {
            RustType::Bool => SqlType::Boolean.not_null(),
            RustType::Null => SqlType::NullByteArray,
            RustType::U8(_) => SqlType::SmallInt.not_null(),
            RustType::I8(_) => SqlType::SmallInt.not_null(),
            RustType::U16(r) => if r.1 <= 0x7fff {
                SqlType::SmallInt.not_null()
            } else {
                SqlType::Integer.not_null()
            },
            RustType::I16(_) => SqlType::SmallInt.not_null(),
            RustType::U32(r) => if r.1 <= 0x7fffffff {
                SqlType::Integer.not_null()
            } else {
                SqlType::BigInt.not_null()
            },
            RustType::I32(_) => SqlType::Integer.not_null(),
            RustType::U64(_) => SqlType::BigInt.not_null(),
            RustType::I64(_) => SqlType::BigInt.not_null(),
            RustType::String(_, _) => SqlType::Text.not_null(),
            RustType::VecU8(_) => SqlType::ByteArray.not_null(),
            RustType::BitVec(_) => SqlType::BitsReprByByteArrayAndBitsLen.not_null(),
            RustType::Vec(inner, _, _) => SqlType::Array(Box::new(inner.to_sql())).not_null(),
            RustType::Option(inner) => inner.to_sql().nullable(),
            RustType::Default(inner) => inner.to_sql(),
            RustType::Complex(name, _) => SqlType::References(
                name.clone(),
                fk_column_str().to_owned(),
                Some(Action::Cascade),
                Some(Action::Cascade),
            ).not_null(),
        }
    }
}

/// The reserved surrogate-key column name, as a string slice.
pub fn fk_column_str() -> (r: &'static str)
    ensures
        r@ == spec_fk_column(),
{
    "id"
}

/// The inverse direction of the type mapping: the structural type that a
/// column type round-trips to. Nullability becomes an optional wrapper;
/// range-bearing column types yield the widest non-negative range their
/// signed representation admits.
pub open spec fn spec_to_rust(s: SqlTypeV) -> RustTypeV
    decreases s,
{
    match s {
        SqlTypeV::SmallInt => RustTypeV::Option(
            Box::new(RustTypeV::I16(Range(0, 0x7fff, false))),
        ),
        SqlTypeV::Integer => RustTypeV::Option(
            Box::new(RustTypeV::I32(Range(0, 0x7fffffff, false))),
        ),
        SqlTypeV::BigInt => RustTypeV::Option(
            Box::new(RustTypeV::I64(Range(0, 0x7fffffffffffffff, false))),
        ),
        SqlTypeV::Serial => RustTypeV::Option(
            Box::new(RustTypeV::I32(Range(0, 0x7fffffff, false))),
        ),
        SqlTypeV::Boolean => RustTypeV::Option(Box::new(RustTypeV::Bool)),
        SqlTypeV::Text => RustTypeV::Option(
            Box::new(RustTypeV::String(Size::Any, Charset::Utf8)),
        ),
        SqlTypeV::Array(inner) => RustTypeV::Option(
            Box::new(
                RustTypeV::Vec(Box::new(spec_to_rust(*inner)), Size::Any, EncodingOrdering::Keep),
            ),
        ),
        SqlTypeV::NotNull(inner) => spec_no_option(spec_to_rust(*inner)),
        SqlTypeV::ByteArray => RustTypeV::Option(Box::new(RustTypeV::VecU8(Size::Any))),
        SqlTypeV::NullByteArray => RustTypeV::Null,
        SqlTypeV::BitsReprByByteArrayAndBitsLen => RustTypeV::Option(
            Box::new(RustTypeV::BitVec(Size::Any)),
        ),
        SqlTypeV::References(name, _, _, _) => RustTypeV::Option(
            Box::new(RustTypeV::Complex(name, None)),
        ),
    }
}

impl SqlType {
    /// The structural type this column type round-trips to; see
    /// [`spec_to_rust`].
    pub fn to_rust(&self) -> (r: RustType)
        ensures
            r@ == spec_to_rust(self@),
        decreases *self,
    {
        proof {
            reveal_with_fuel(view_rust_type, 3);
        }
        match self {
            SqlType::SmallInt => RustType::Option(
                Box::new(RustType::I16(Range::inclusive(0, 0x7fff))),
            ),
            SqlType::Integer => RustType::Option(
                Box::new(RustType::I32(Range::inclusive(0, 0x7fffffff))),
            ),
            SqlType::BigInt => RustType::Option(
                Box::new(RustType::I64(Range::inclusive(0, 0x7fffffffffffffff))),
            ),
            SqlType::Serial => RustType::Option(
                Box::new(RustType::I32(Range::inclusive(0, 0x7fffffff))),
            ),
            SqlType::Boolean => RustType::Option(Box::new(RustType::Bool)),
            SqlType::Text => RustType::Option(
                Box::new(RustType::String(Size::Any, Charset::Utf8)),
            ),
            SqlType::Array(inner) => RustType::Option(
                Box::new(
                    RustType::Vec(Box::new(inner.to_rust()), Size::Any, EncodingOrdering::Keep),
                ),
            ),
            SqlType::NotNull(inner) => inner.to_rust().no_option(),
            SqlType::ByteArray => RustType::Option(Box::new(RustType::VecU8(Size::Any))),
            SqlType::NullByteArray => RustType::Null,
            SqlType::BitsReprByByteArrayAndBitsLen => RustType::Option(
                Box::new(RustType::BitVec(Size::Any)),
            ),
            SqlType::References(name, _, _, _) => RustType::Option(
                Box::new(RustType::Complex(name.clone(), None)),
            ),
        }
    }
}

/// The rendered form of a referential action.
pub open spec fn spec_action_string(a: Action) -> Seq<char> {
    match a {
        Action::Cascade => "CASCADE"@,
        Action::Restrict => "RESTRICT"@,
    }
}

impl Action {
    /// Renders the action as its DDL keyword.
    pub fn to_string(&self) -> (r: String)
        ensures
            r@ == spec_action_string(*self),
    {
        match self {
            Action::Cascade => "CASCADE".to_owned(),
            Action::Restrict => "RESTRICT".to_owned(),
        }
    }
}

/// The rendered form of a column type: arrays append brackets, not-null
/// wrapping appends a trailing token, and references name the mangled
/// target table with optional action clauses.
pub open spec fn spec_sql_type_string(t: SqlTypeV) -> Seq<char>
    decreases t,
{
    match t {
        SqlTypeV::SmallInt => "SMALLINT"@,
        SqlTypeV::Integer => "INTEGER"@,
        SqlTypeV::BigInt => "BIGINT"@,
        SqlTypeV::Serial => "SERIAL"@,
        SqlTypeV::Boolean => "BOOLEAN"@,
        SqlTypeV::Text => "TEXT"@,
        SqlTypeV::Array(inner) => spec_sql_type_string(*inner) + "[]"@,
        SqlTypeV::NotNull(inner) => spec_sql_type_string(*inner) + " NOT NULL"@,
        SqlTypeV::ByteArray => "BYTEA"@,
        SqlTypeV::NullByteArray => "BYTEA"@,
        SqlTypeV::BitsReprByByteArrayAndBitsLen => "BYTEA"@,
        SqlTypeV::References(table, column, on_delete, on_update) => "INTEGER REFERENCES "@
            + spec_definition_name(table) + "("@ + column + ")"@ + (match on_delete {
            Some(a) => " ON DELETE "@ + spec_action_string(a),
            None => Seq::empty(),
        }) + (match on_update {
            Some(a) => " ON UPDATE "@ + spec_action_string(a),
            None => Seq::empty(),
        }),
    }
}

impl SqlType {
    /// Renders the column type as DDL text.
    pub fn to_string(&self) -> (r: String)
        ensures
            r@ == spec_sql_type_string(self@),
        decreases *self,
    {
        match self {
            SqlType::SmallInt => "SMALLINT".to_owned(),
            SqlType::Integer => "INTEGER".to_owned(),
            SqlType::BigInt => "BIGINT".to_owned(),
            SqlType::Serial => "SERIAL".to_owned(),
            SqlType::Boolean => "BOOLEAN".to_owned(),
            SqlType::Text => "TEXT".to_owned(),
            SqlType::Array(inner) => {
                let mut s = inner.to_string();
                s.append("[]");
                s
            },
            SqlType::NotNull(inner) => {
                let mut s = inner.to_string();
                s.append(" NOT NULL");
                s
            },
            SqlType::ByteArray => "BYTEA".to_owned(),
            SqlType::NullByteArray => "BYTEA".to_owned(),
            SqlType::BitsReprByByteArrayAndBitsLen => "BYTEA".to_owned(),
            SqlType::References(table, column, on_delete, on_update) => {
                let mut s = "INTEGER REFERENCES ".to_owned();
                let mangled = mangle_definition_name(table.as_str());
                s.append(mangled.as_str());
                s.append("(");
                s.append(column.as_str());
                s.append(")");
                match on_delete {
                    Some(a) => {
                        s.append(" ON DELETE ");
                        let w = a.to_string();
                        s.append(w.as_str());
                    },
                    None => {},
                }
                match on_update {
                    Some(a) => {
                        s.append(" ON UPDATE ");
                        let w = a.to_string();
                        s.append(w.as_str());
                    },
                    None => {},
                }
                s
            },
        }
    }
}

/// A column of a synthesized table.
#[derive(Debug, PartialEq)]
pub struct Column {
    pub name: String,
    pub sql: SqlType,
    pub primary_key: bool,
}

/// Mathematical model of a [`Column`].
#[verifier::ext_equal]
pub struct ColumnV {
    pub name: Seq<char>,
    pub sql: SqlTypeV,
    pub primary_key: bool,
}

impl View for Column {
    type V = ColumnV;

    open spec fn view(&self) -> ColumnV {
        ColumnV { name: self.name@, sql: self.sql@, primary_key: self.primary_key }
    }
}

impl Clone for Column {
    /// A deep copy that is equal to the original.
    fn clone(&self) -> (r: Self)
        ensures
            r == *self,
    {
        Column { name: self.name.clone(), sql: self.sql.clone(), primary_key: self.primary_key }
    }
}

/// A table constraint: a composite primary key, or the tagged-union
/// presence constraint that exactly one of the named columns is non-null.
#[derive(Debug, PartialEq)]
pub enum Constraint {
    CombinedPrimaryKey(Vec<String>),
    OneNotNull(Vec<String>),
}

/// Mathematical model of a [`Constraint`].
#[verifier::ext_equal]
pub enum ConstraintV {
    CombinedPrimaryKey(Seq<Seq<char>>),
    OneNotNull(Seq<Seq<char>>),
}

impl View for Constraint {
    type V = ConstraintV;

    open spec fn view(&self) -> ConstraintV {
        match self {
            Constraint::CombinedPrimaryKey(cols) => ConstraintV::CombinedPrimaryKey(
                cols@.map_values(|c: String| c@),
            ),
            Constraint::OneNotNull(cols) => ConstraintV::OneNotNull(
                cols@.map_values(|c: String| c@),
            ),
        }
    }
}

fn clone_string_vec(v: &Vec<String>) -> (r: Vec<String>)
    ensures
        r@ == v@,
{
    let mut out: Vec<String> = Vec::new();
    let mut i: usize = 0;
    while i < v.len()
        invariant
            i <= v.len(),
            out@ == v@.subrange(0, i as int),
        decreases v.len() - i,
    {
        out.push(v[i].clone());
        proof {
            assert(v@.subrange(0, i + 1 as int) =~= v@.subrange(0, i as int).push(v@[i as int]));
        }
        i = i + 1;
    }
    proof {
        assert(v@.subrange(0, v@.len() as int) =~= v@);
    }
    out
}

impl Clone for Constraint {
    /// A deep copy whose mathematical model is that of the original.
    fn clone(&self) -> (r: Self)
        ensures
            r@ == self@,
    {
        match self {
            Constraint::CombinedPrimaryKey(cols) => Constraint::CombinedPrimaryKey(
                clone_string_vec(cols),
            ),
            Constraint::OneNotNull(cols) => Constraint::OneNotNull(clone_string_vec(cols)),
        }
    }
}

/// A schema definition: a table, an enumeration object, an index, an
/// integrity-maintenance function over foreign-key children, or a
/// delete-prevention guard.
#[derive(Debug, PartialEq)]
pub enum Sql {
    Table(Vec<Column>, Vec<Constraint>),
    Enum(Vec<String>),
    Index(String, Vec<String>),
    AbandonChildrenFunction(String, Vec<(String, String, String)>),
    SilentlyPreventAnyDelete(String),
}

/// Mathematical model of a [`Sql`] definition.
#[verifier::ext_equal]
pub enum SqlV {
    Table(Seq<ColumnV>, Seq<ConstraintV>),
    Enum(Seq<Seq<char>>),
    Index(Seq<char>, Seq<Seq<char>>),
    AbandonChildrenFunction(Seq<char>, Seq<(Seq<char>, Seq<char>, Seq<char>)>),
    SilentlyPreventAnyDelete(Seq<char>),
}

impl View for Sql {
    type V = SqlV;

    open spec fn view(&self) -> SqlV {
        match self {
            Sql::Table(cols, constraints) => SqlV::Table(
                cols@.map_values(|c: Column| c@),
                constraints@.map_values(|c: Constraint| c@),
            ),
            Sql::Enum(variants) => SqlV::Enum(variants@.map_values(|v: String| v@)),
            Sql::Index(table, cols) => SqlV::Index(table@, cols@.map_values(|c: String| c@)),
            Sql::AbandonChildrenFunction(table, children) => SqlV::AbandonChildrenFunction(
                table@,
                children@.map_values(|c: (String, String, String)| (c.0@, c.1@, c.2@)),
            ),
            Sql::SilentlyPreventAnyDelete(table) => SqlV::SilentlyPreventAnyDelete(table@),
        }
    }
}

fn clone_column_vec(v: &Vec<Column>) -> (r: Vec<Column>)
    ensures
        r@ == v@,
{
    let mut out: Vec<Column> = Vec::new();
    let mut i: usize = 0;
    while i < v.len()
        invariant
            i <= v.len(),
            out@ == v@.subrange(0, i as int),
        decreases v.len() - i,
    {
        out.push(v[i].clone());
        proof {
            assert(v@.subrange(0, i + 1 as int) =~= v@.subrange(0, i as int).push(v@[i as int]));
        }
        i = i + 1;
    }
    proof {
        assert(v@.subrange(0, v@.len() as int) =~= v@);
    }
    out
}

fn clone_constraint_vec(v: &Vec<Constraint>) -> (r: Vec<Constraint>)
    ensures
        r@.len() == v@.len(),
        forall|j: int| 0 <= j < v@.len() ==> r@[j]@ == v@[j]@,
{
    let mut out: Vec<Constraint> = Vec::new();
    let mut i: usize = 0;
    while i < v.len()
        invariant
            i <= v.len(),
            out@.len() == i,
            forall|j: int| 0 <= j < i ==> out@[j]@ == v@[j]@,
        decreases v.len() - i,
    {
        out.push(v[i].clone());
        i = i + 1;
    }
    out
}

fn clone_children_vec(v: &Vec<(String, String, String)>) -> (r: Vec<(String, String, String)>)
    ensures
        r@ == v@,
{
    let mut out: Vec<(String, String, String)> = Vec::new();
    let mut i: usize = 0;
    while i < v.len()
        invariant
            i <= v.len(),
            out@ == v@.subrange(0, i as int),
        decreases v.len() - i,
    {
        let entry = &v[i];
        out.push((entry.0.clone(), entry.1.clone(), entry.2.clone()));
        proof {
            assert(v@.subrange(0, i + 1 as int) =~= v@.subrange(0, i as int).push(v@[i as int]));
        }
        i = i + 1;
    }
    proof {
        assert(v@.subrange(0, v@.len() as int) =~= v@);
    }
    out
}

impl Clone for Sql {
    /// A deep copy whose mathematical model is that of the original.
    fn clone(&self) -> (r: Self)
        ensures
            r@ == self@,
    {
        match self {
            Sql::Table(cols, constraints) => {
                let c2 = clone_column_vec(cols);
                let k2 = clone_constraint_vec(constraints);
                proof {
                    assert(k2@.map_values(|c: Constraint| c@) =~= constraints@.map_values(
                        |c: Constraint| c@,
                    ));
                }
                Sql::Table(c2, k2)
            },
            Sql::Enum(variants) => Sql::Enum(clone_string_vec(variants)),
            Sql::Index(table, cols) => Sql::Index(table.clone(), clone_string_vec(cols)),
            Sql::AbandonChildrenFunction(table, children) => Sql::AbandonChildrenFunction(
                table.clone(),
                clone_children_vec(children),
            ),
            Sql::SilentlyPreventAnyDelete(table) => Sql::SilentlyPreventAnyDelete(table.clone()),
        }
    }
}

impl Clone for crate::model::Definition<Sql> {
    /// A deep copy whose mathematical model is that of the original.
    fn clone(&self) -> (r: Self)
        ensures
            r@ == self@,
    {
        crate::model::Definition(self.0.clone(), self.1.clone())
    }
}

} // verus!
