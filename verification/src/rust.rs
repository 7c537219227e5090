//! The structural model: the algebraic description of record, union,
//! enumeration, tuple-wrapper and list types that the schema compiler
//! consumes.

use vstd::prelude::*;

verus! {

/// An inclusive numeric range with an extensibility marker.
#[derive(Debug, Clone, Copy, PartialEq, Eq, PartialOrd, Ord, Structural)]
pub struct Range<T>(pub T, pub T, pub bool);

impl<T> Range<T> {
    /// The inclusive range from `min` to `max`, not extensible.
    pub fn inclusive(min: T, max: T) -> (r: Self)
        ensures
            r == (Range(min, max, false)),
    {
        Range(min, max, false)
    }
}

impl<T> Range<Option<T>> {
    /// The unbounded range, not extensible.
    pub fn none() -> (r: Self)
        ensures
            r == (Range(Option::<T>::None, Option::<T>::None, false)),
    {
        Range(None, None, false)
    }
}

/// A size bound on a string, byte sequence or list.
#[derive(Debug, Clone, Copy, PartialEq, Eq, Structural)]
pub enum Size {
    Any,
    Fix(usize),
}

/// The character set of a string type.
#[derive(Debug, Clone, Copy, PartialEq, Eq, Structural)]
pub enum Charset {
    Utf8,
}

/// Whether the encoding of a list keeps or sorts the declared order.
#[derive(Debug, Clone, Copy, PartialEq, Eq, Structural)]
pub enum EncodingOrdering {
    Keep,
    Sort,
}

/// An encoding tag carried by the front end; the schema compiler keeps it
/// but never reads it.
#[derive(Debug, Clone, Copy, PartialEq, Eq, Structural)]
pub enum Tag {
    Universal(usize),
    Application(usize),
    ContextSpecific(usize),
    Private(usize),
}

impl Tag {
    /// The universal tag of a UTF-8 string.
    pub fn default_utf8_string() -> (r: Tag)
        ensures
            r == Tag::Universal(12usize),
    {
        Tag::Universal(12)
    }
}

/// A field type of the structural model: a closed set of scalar, string,
/// byte, list, optional, defaulted and reference-to-definition types.
#[derive(Debug, PartialEq)]
pub enum RustType {
    Bool,
    Null,
    U8(Range<u8>),
    I8(Range<i8>),
    U16(Range<u16>),
    I16(Range<i16>),
    U32(Range<u32>),
    I32(Range<i32>),
    U64(Range<Option<u64>>),
    I64(Range<i64>),
    String(Size, Charset),
    VecU8(Size),
    BitVec(Size),
    Vec(Box<RustType>, Size, EncodingOrdering),
    Option(Box<RustType>),
    Default(Box<RustType>),
    Complex(String, Option<Tag>),
}

/// Mathematical model of a [`RustType`]: the same shape with the reference
/// name as a character sequence.
#[verifier::ext_equal]
pub enum RustTypeV {
    Bool,
    Null,
    U8(Range<u8>),
    I8(Range<i8>),
    U16(Range<u16>),
    I16(Range<i16>),
    U32(Range<u32>),
    I32(Range<i32>),
    U64(Range<Option<u64>>),
    I64(Range<i64>),
    String(Size, Charset),
    VecU8(Size),
    BitVec(Size),
    Vec(Box<RustTypeV>, Size, EncodingOrdering),
    Option(Box<RustTypeV>),
    Default(Box<RustTypeV>),
    Complex(Seq<char>, Option<Tag>),
}

pub open spec fn view_rust_type(t: RustType) -> RustTypeV
    decreases t,
{
    match t {
        RustType::Bool => RustTypeV::Bool,
        RustType::Null => RustTypeV::Null,
        RustType::U8(r) => RustTypeV::U8(r),
        RustType::I8(r) => RustTypeV::I8(r),
        RustType::U16(r) => RustTypeV::U16(r),
        RustType::I16(r) => RustTypeV::I16(r),
        RustType::U32(r) => RustTypeV::U32(r),
        RustType::I32(r) => RustTypeV::I32(r),
        RustType::U64(r) => RustTypeV::U64(r),
        RustType::I64(r) => RustTypeV::I64(r),
        RustType::String(s, c) => RustTypeV::String(s, c),
        RustType::VecU8(s) => RustTypeV::VecU8(s),
        RustType::BitVec(s) => RustTypeV::BitVec(s),
        RustType::Vec(inner, s, o) => RustTypeV::Vec(Box::new(view_rust_type(*inner)), s, o),
        RustType::Option(inner) => RustTypeV::Option(Box::new(view_rust_type(*inner))),
        RustType::Default(inner) => RustTypeV::Default(Box::new(view_rust_type(*inner))),
        RustType::Complex(name, tag) => RustTypeV::Complex(name@, tag),
    }
}

impl View for RustType {
    type V = RustTypeV;

    open spec fn view(&self) -> RustTypeV {
        view_rust_type(*self)
    }
}

/// Whether the type is, at the top level, a repeated-value (list) type.
pub open spec fn spec_is_vec(t: RustTypeV) -> bool {
    t is Vec
}

/// The innermost type after unwrapping list, optional and defaulted
/// wrappers.
pub open spec fn spec_inner_type(t: RustTypeV) -> RustTypeV
    decreases t,
{
    match t {
        RustTypeV::Vec(inner, _, _) => spec_inner_type(*inner),
        RustTypeV::Option(inner) => spec_inner_type(*inner),
        RustTypeV::Default(inner) => spec_inner_type(*inner),
        other => other,
    }
}

/// The type with a top-level optional wrapper removed.
pub open spec fn spec_no_option(t: RustTypeV) -> RustTypeV {
    match t {
        RustTypeV::Option(inner) => *inner,
        other => other,
    }
}

/// Whether the type is a plain scalar: boolean or integer.
pub open spec fn spec_is_scalar(t: RustTypeV) -> bool {
    match t {
        RustTypeV::Bool => true,
        RustTypeV::U8(_) => true,
        RustTypeV::I8(_) => true,
        RustTypeV::U16(_) => true,
        RustTypeV::I16(_) => true,
        RustTypeV::U32(_) => true,
        RustTypeV::I32(_) => true,
        RustTypeV::U64(_) => true,
        RustTypeV::I64(_) => true,
        _ => false,
    }
}

impl RustType {
    /// Whether the type is, at the top level, a repeated-value (list) type.
    pub fn is_vec(&self) -> (r: bool)
        ensures
            r == spec_is_vec(self@),
    {
        match self {
            RustType::Vec(_, _, _) => true,
            _ => false,
        }
    }

    /// The innermost type after unwrapping list, optional and defaulted
    /// wrappers.
    pub fn as_inner_type(&self) -> (r: &RustType)
        ensures
            r@ == spec_inner_type(self@),
        decreases *self,
    {
        match self {
            RustType::Vec(inner, _, _) => inner.as_inner_type(),
            RustType::Option(inner) => inner.as_inner_type(),
            RustType::Default(inner) => inner.as_inner_type(),
            other => other,
        }
    }

    /// The type with a top-level optional wrapper removed.
    pub fn no_option(self) -> (r: RustType)
        ensures
            r@ == spec_no_option(self@),
    {
        match self {
            RustType::Option(inner) => *inner,
            other => other,
        }
    }

    /// Whether the type is a plain scalar: boolean or integer.
    pub fn is_primitive(&self) -> (r: bool)
        ensures
            r == spec_is_scalar(self@),
    {
        match self {
            RustType::Bool => true,
            RustType::U8(_) => true,
            RustType::I8(_) => true,
            RustType::U16(_) => true,
            RustType::I16(_) => true,
            RustType::U32(_) => true,
            RustType::I32(_) => true,
            RustType::U64(_) => true,
            RustType::I64(_) => true,
            _ => false,
        }
    }
}

impl Clone for RustType {
    /// A deep copy that is equal to the original.
    fn clone(&self) -> (r: Self)
        ensures
            r == *self,
        decreases *self,
    {
        match self {
            RustType::Bool => RustType::Bool,
            RustType::Null => RustType::Null,
            RustType::U8(r) => RustType::U8(*r),
            RustType::I8(r) => RustType::I8(*r),
            RustType::U16(r) => RustType::U16(*r),
            RustType::I16(r) => RustType::I16(*r),
            RustType::U32(r) => RustType::U32(*r),
            RustType::I32(r) => RustType::I32(*r),
            RustType::U64(r) => RustType::U64(*r),
            RustType::I64(r) => RustType::I64(*r),
            RustType::String(s, c) => RustType::String(*s, *c),
            RustType::VecU8(s) => RustType::VecU8(*s),
            RustType::BitVec(s) => RustType::BitVec(*s),
            RustType::Vec(inner, s, o) => RustType::Vec(Box::new((**inner).clone()), *s, *o),
            RustType::Option(inner) => RustType::Option(Box::new((**inner).clone())),
            RustType::Default(inner) => RustType::Default(Box::new((**inner).clone())),
            RustType::Complex(name, tag) => RustType::Complex(name.clone(), *tag),
        }
    }
}

/// A named field of a record definition.
#[derive(Debug, PartialEq)]
pub struct Field {
    pub name: String,
    pub ty: RustType,
}

/// Mathematical model of a [`Field`].
#[verifier::ext_equal]
pub struct FieldV {
    pub name: Seq<char>,
    pub ty: RustTypeV,
}

impl View for Field {
    type V = FieldV;

    open spec fn view(&self) -> FieldV {
        FieldV { name: self.name@, ty: self.ty@ }
    }
}

impl Field {
    /// A field with the given name and type.
    pub fn from_name_type(name: &str, ty: RustType) -> (r: Field)
        ensures
            r@.name == name@,
            r@.ty == ty@,
    {
        Field { name: name.to_owned(), ty }
    }

    /// The field's name.
    pub fn name(&self) -> (r: &String)
        ensures
            r@ == self@.name,
    {
        &self.name
    }

    /// The field's type.
    pub fn ty(&self) -> (r: &RustType)
        ensures
            r@ == self@.ty,
    {
        &self.ty
    }
}

/// A payload-carrying variant of a tagged union.
#[derive(Debug, PartialEq)]
pub struct DataVariant {
    pub name: String,
    pub ty: RustType,
}

/// Mathematical model of a [`DataVariant`].
#[verifier::ext_equal]
pub struct DataVariantV {
    pub name: Seq<char>,
    pub ty: RustTypeV,
}

impl View for DataVariant {
    type V = DataVariantV;

    open spec fn view(&self) -> DataVariantV {
        DataVariantV { name: self.name@, ty: self.ty@ }
    }
}

impl DataVariant {
    /// A variant with the given name and payload type.
    pub fn from_name_type(name: &str, ty: RustType) -> (r: DataVariant)
        ensures
            r@.name == name@,
            r@.ty == ty@,
    {
        DataVariant { name: name.to_owned(), ty }
    }

    /// The variant's name.
    pub fn name(&self) -> (r: &String)
        ensures
            r@ == self@.name,
    {
        &self.name
    }

    /// The variant's payload type.
    pub fn ty(&self) -> (r: &RustType)
        ensures
            r@ == self@.ty,
    {
        &self.ty
    }
}

/// A plain enumeration: named labels without payloads.
#[derive(Debug, PartialEq)]
pub struct PlainEnum {
    pub variants: Vec<String>,
}

impl View for PlainEnum {
    type V = Seq<Seq<char>>;

    open spec fn view(&self) -> Seq<Seq<char>> {
        self.variants@.map_values(|v: String| v@)
    }
}

impl PlainEnum {
    /// The labels, in declared order.
    pub fn variants(&self) -> (r: &Vec<String>)
        ensures
            r@.map_values(|v: String| v@) == self@,
    {
        &self.variants
    }
}

impl From<Vec<String>> for PlainEnum {
    fn from(variants: Vec<String>) -> (r: PlainEnum) {
        PlainEnum { variants }
    }
}

impl vstd::std_specs::convert::FromSpecImpl<Vec<String>> for PlainEnum {
    open spec fn obeys_from_spec() -> bool {
        true
    }

    open spec fn from_spec(variants: Vec<String>) -> PlainEnum {
        PlainEnum { variants }
    }
}

/// A tagged union: variants that each carry a payload type.
#[derive(Debug, PartialEq)]
pub struct DataEnum {
    pub variants: Vec<DataVariant>,
}

impl View for DataEnum {
    type V = Seq<DataVariantV>;

    open spec fn view(&self) -> Seq<DataVariantV> {
        self.variants@.map_values(|v: DataVariant| v@)
    }
}

impl DataEnum {
    /// The variants, in declared order.
    pub fn variants(&self) -> (r: &Vec<DataVariant>)
        ensures
            r@.map_values(|v: DataVariant| v@) == self@,
    {
        &self.variants
    }

    /// The number of variants.
    pub fn len(&self) -> (r: usize)
        ensures
            r == self@.len(),
    {
        self.variants.len()
    }
}

impl From<Vec<DataVariant>> for DataEnum {
    fn from(variants: Vec<DataVariant>) -> (r: DataEnum) {
        DataEnum { variants }
    }
}

impl vstd::std_specs::convert::FromSpecImpl<Vec<DataVariant>> for DataEnum {
    open spec fn obeys_from_spec() -> bool {
        true
    }

    open spec fn from_spec(variants: Vec<DataVariant>) -> DataEnum {
        DataEnum { variants }
    }
}

/// A definition body of the structural model.
#[derive(Debug, PartialEq)]
pub enum Rust {
    Struct { fields: Vec<Field>, tag: Option<Tag>, extension_after: Option<usize>, ordering: EncodingOrdering },
    Enum(PlainEnum),
    DataEnum(DataEnum),
    TupleStruct { ty: RustType, tag: Option<Tag> },
}

/// Mathematical model of a [`Rust`] definition body.
#[verifier::ext_equal]
pub enum RustV {
    Struct(Seq<FieldV>),
    Enum(Seq<Seq<char>>),
    DataEnum(Seq<DataVariantV>),
    TupleStruct(RustTypeV),
}

impl View for Rust {
    type V = RustV;

    open spec fn view(&self) -> RustV {
        match self {
            Rust::Struct { fields, .. } => RustV::Struct(fields@.map_values(|f: Field| f@)),
            Rust::Enum(e) => RustV::Enum(e@),
            Rust::DataEnum(e) => RustV::DataEnum(e@),
            Rust::TupleStruct { ty, .. } => RustV::TupleStruct(ty@),
        }
    }
}

impl Rust {
    /// A record definition from its fields, untagged and in declared order.
    pub fn struct_from_fields(fields: Vec<Field>) -> (r: Rust)
        ensures
            r@ == RustV::Struct(fields@.map_values(|f: Field| f@)),
    {
        Rust::Struct { fields, tag: None, extension_after: None, ordering: EncodingOrdering::Keep }
    }

    /// A tuple-wrapper definition around a single inner type, untagged.
    pub fn tuple_struct_from_type(ty: RustType) -> (r: Rust)
        ensures
            r@ == RustV::TupleStruct(ty@),
    {
        Rust::TupleStruct { ty, tag: None }
    }
}

} // verus!
