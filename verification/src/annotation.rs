//! Decoding of applied annotations into typed annotation values.

use vstd::prelude::*;
use crate::hir::{Ann, AnnArg, Numeric};
use crate::text::{owned, str_eq};

verus! {

/// Error of annotation decoding.
#[derive(Debug)]
pub enum CtsAnnotationError {
    /// Annotation name mismatch.
    WrongAnnotationType { expected: &'static str, actual: String },
    /// Deserialization error.
    DeserializationError(String),
    /// Field not found.
    FieldNotFound(String),
    /// Type conversion error.
    TypeConversionError { field: String, expected: &'static str },
}

/// The abstract content of a [`CtsAnnotationError`].
pub enum CtsAnnotationErrorView {
    WrongAnnotationType { expected: Seq<char>, actual: Seq<char> },
    DeserializationError(Seq<char>),
    FieldNotFound(Seq<char>),
    TypeConversionError { field: Seq<char>, expected: Seq<char> },
}

impl View for CtsAnnotationError {
    type V = CtsAnnotationErrorView;

    open spec fn view(&self) -> CtsAnnotationErrorView {
        match self {
            CtsAnnotationError::WrongAnnotationType { expected, actual } => CtsAnnotationErrorView::WrongAnnotationType {
                expected: expected@,
                actual: actual@,
            },
            CtsAnnotationError::DeserializationError(m) => CtsAnnotationErrorView::DeserializationError(m@),
            CtsAnnotationError::FieldNotFound(m) => CtsAnnotationErrorView::FieldNotFound(m@),
            CtsAnnotationError::TypeConversionError { field, expected } => CtsAnnotationErrorView::TypeConversionError {
                field: field@,
                expected: expected@,
            },
        }
    }
}

/// The text a user sees for a decoding error.
pub open spec fn spec_error_message(e: CtsAnnotationErrorView) -> Seq<char> {
    match e {
        CtsAnnotationErrorView::WrongAnnotationType { expected, actual } =>
            "Expected annotation @"@ + expected + " but found @"@ + actual,
        CtsAnnotationErrorView::DeserializationError(msg) => "Deserialization error: "@ + msg,
        CtsAnnotationErrorView::FieldNotFound(name) => "Field '"@ + name + "' not found"@,
        CtsAnnotationErrorView::TypeConversionError { field, expected } =>
            "Field '"@ + field + "' has wrong type, expected "@ + expected,
    }
}

impl CtsAnnotationError {
    /// The text a user sees for this error.
    pub fn message(&self) -> (r: String)
        ensures
            r@ == spec_error_message(self@),
    {
        match self {
            CtsAnnotationError::WrongAnnotationType { expected, actual } => {
                let mut s = owned("Expected annotation @");
                s.append(expected);
                s.append(" but found @");
                s.append(actual.as_str());
                s
            },
            CtsAnnotationError::DeserializationError(msg) => {
                let mut s = owned("Deserialization error: ");
                s.append(msg.as_str());
                s
            },
            CtsAnnotationError::FieldNotFound(name) => {
                let mut s = owned("Field '");
                s.append(name.as_str());
                s.append("' not found");
                s
            },
            CtsAnnotationError::TypeConversionError { field, expected } => {
                let mut s = owned("Field '");
                s.append(field.as_str());
                s.append("' has wrong type, expected ");
                s.append(expected);
                s
            },
        }
    }
}

/// The abstract content of a decoding result.
pub open spec fn view_result<T: View>(r: Result<T, CtsAnnotationError>) -> Result<T::V, CtsAnnotationErrorView> {
    match r {
        Ok(v) => Ok(v@),
        Err(e) => Err(e@),
    }
}

/// A conversion error for `field` (as text) that expected `expected`.
pub open spec fn conv_err<T>(field: Seq<char>, expected: Seq<char>) -> Result<T, CtsAnnotationErrorView> {
    Err(CtsAnnotationErrorView::TypeConversionError { field, expected })
}

fn conv_error(field: &str, expected: &'static str) -> (e: CtsAnnotationError)
    ensures
        e@ == (CtsAnnotationErrorView::TypeConversionError { field: field@, expected: expected@ }),
{
    CtsAnnotationError::TypeConversionError { field: owned(field), expected }
}

/// What an annotation value is decoded from: a whole annotation (a struct)
/// or a single argument value.
pub enum AnnDeserializer<'a> {
    /// Deserializing a full annotation (struct-like).
    Annotation(&'a Ann),
    /// Deserializing a numeric value directly.
    Numeric(&'a Numeric),
}

/// The result of decoding a primitive from a decoder source: a whole
/// annotation is never a primitive; a value is decoded by `f`, which yields
/// `None` for values of another kind.
pub open spec fn spec_decode_prim<T>(d: AnnDeserializer, f: spec_fn(Numeric) -> Option<T>, expected: Seq<char>) -> Result<T, CtsAnnotationErrorView> {
    match d {
        AnnDeserializer::Annotation(_) => conv_err("annotation"@, expected),
        AnnDeserializer::Numeric(n) => spec_num_prim(*n, f, expected),
    }
}

/// Decoding a primitive from a value: `f` yields `None` for values of another
/// kind.
pub open spec fn spec_num_prim<T>(n: Numeric, f: spec_fn(Numeric) -> Option<T>, expected: Seq<char>) -> Result<T, CtsAnnotationErrorView> {
    match f(n) {
        Some(v) => Ok(v),
        None => conv_err("value"@, expected),
    }
}

pub open spec fn num_bool(n: Numeric) -> Option<bool> {
    match n {
        Numeric::Bool(b) => Some(b),
        _ => None,
    }
}

pub open spec fn num_i8(n: Numeric) -> Option<i8> {
    match n {
        Numeric::Int8(v) => Some(v),
        _ => None,
    }
}

pub open spec fn num_i16(n: Numeric) -> Option<i16> {
    match n {
        Numeric::Int8(v) => Some(v as i16),
        Numeric::Int16(v) => Some(v),
        _ => None,
    }
}

pub open spec fn num_i32(n: Numeric) -> Option<i32> {
    match n {
        Numeric::Int8(v) => Some(v as i32),
        Numeric::Int16(v) => Some(v as i32),
        Numeric::Int32(v) => Some(v),
        _ => None,
    }
}

pub open spec fn num_u8(n: Numeric) -> Option<u8> {
    match n {
        Numeric::UInt8(v) => Some(v),
        _ => None,
    }
}

pub open spec fn num_u16(n: Numeric) -> Option<u16> {
    match n {
        Numeric::UInt8(v) => Some(v as u16),
        Numeric::UInt16(v) => Some(v),
        _ => None,
    }
}

pub open spec fn num_u32(n: Numeric) -> Option<u32> {
    match n {
        Numeric::UInt8(v) => Some(v as u32),
        Numeric::UInt16(v) => Some(v as u32),
        Numeric::UInt32(v) => Some(v),
        _ => None,
    }
}

pub open spec fn num_u64(n: Numeric) -> Option<u64> {
    match n {
        Numeric::UInt8(v) => Some(v as u64),
        Numeric::UInt16(v) => Some(v as u64),
        Numeric::UInt32(v) => Some(v as u64),
        Numeric::UInt64(v) => Some(v),
        _ => None,
    }
}

pub open spec fn num_char(n: Numeric) -> Option<char> {
    match n {
        Numeric::Char(c) => Some(c),
        Numeric::WChar(c) => Some(c),
        _ => None,
    }
}

pub open spec fn num_string(n: Numeric) -> Option<Seq<char>> {
    match n {
        Numeric::String(s) => Some(s@),
        Numeric::WString(s) => Some(s@),
        _ => None,
    }
}

/// Decoding a signed 64-bit integer accepts every integer constant whose
/// value fits.
pub open spec fn spec_decode_i64(d: AnnDeserializer) -> Result<i64, CtsAnnotationErrorView> {
    match d {
        AnnDeserializer::Annotation(_) => conv_err("annotation"@, "i64"@),
        AnnDeserializer::Numeric(n) => spec_num_i64(*n),
    }
}

/// Decoding a signed 64-bit integer from a value.
pub open spec fn spec_num_i64(n: Numeric) -> Result<i64, CtsAnnotationErrorView> {
        match n {
            Numeric::Int8(v) => Ok(v as i64),
            Numeric::Int16(v) => Ok(v as i64),
            Numeric::Int32(v) => Ok(v as i64),
            Numeric::Int64(v) => Ok(v),
            Numeric::UInt8(v) => Ok(v as i64),
            Numeric::UInt16(v) => Ok(v as i64),
            Numeric::UInt32(v) => Ok(v as i64),
            Numeric::UInt64(v) => if v <= i64::MAX {
                Ok(v as i64)
            } else {
                conv_err("value"@, "i64 (value too large)"@)
            },
            _ => conv_err("value"@, "i64"@),
        }
}

impl<'a> AnnDeserializer<'a> {
    pub fn from_annotation(ann: &'a Ann) -> (d: Self)
        ensures
            d == AnnDeserializer::Annotation(ann),
    {
        AnnDeserializer::Annotation(ann)
    }

    pub fn from_numeric(value: &'a Numeric) -> (d: Self)
        ensures
            d == AnnDeserializer::Numeric(value),
    {
        AnnDeserializer::Numeric(value)
    }

    pub fn decode_bool(self) -> (r: Result<bool, CtsAnnotationError>)
        ensures
            view_result(r) == spec_decode_prim(self, |n: Numeric| num_bool(n), "bool"@),
    {
        match self {
            AnnDeserializer::Annotation(_) => Err(conv_error("annotation", "bool")),
            AnnDeserializer::Numeric(numeric) => match numeric {
                Numeric::Bool(b) => Ok(*b),
                _ => Err(conv_error("value", "bool")),
            },
        }
    }

    pub fn decode_i8(self) -> (r: Result<i8, CtsAnnotationError>)
        ensures
            view_result(r) == spec_decode_prim(self, |n: Numeric| num_i8(n), "i8"@),
    {
        match self {
            AnnDeserializer::Annotation(_) => Err(conv_error("annotation", "i8")),
            AnnDeserializer::Numeric(numeric) => match numeric {
                Numeric::Int8(v) => Ok(*v),
                _ => Err(conv_error("value", "i8")),
            },
        }
    }

    pub fn decode_i16(self) -> (r: Result<i16, CtsAnnotationError>)
        ensures
            view_result(r) == spec_decode_prim(self, |n: Numeric| num_i16(n), "i16"@),
    {
        match self {
            AnnDeserializer::Annotation(_) => Err(conv_error("annotation", "i16")),
            AnnDeserializer::Numeric(numeric) => match numeric {
                Numeric::Int8(v) => Ok(*v as i16),
                Numeric::Int16(v) => Ok(*v),
                _ => Err(conv_error("value", "i16")),
            },
        }
    }

    pub fn decode_i32(self) -> (r: Result<i32, CtsAnnotationError>)
        ensures
            view_result(r) == spec_decode_prim(self, |n: Numeric| num_i32(n), "i32"@),
    {
        match self {
            AnnDeserializer::Annotation(_) => Err(conv_error("annotation", "i32")),
            AnnDeserializer::Numeric(numeric) => match numeric {
                Numeric::Int8(v) => Ok(*v as i32),
                Numeric::Int16(v) => Ok(*v as i32),
                Numeric::Int32(v) => Ok(*v),
                _ => Err(conv_error("value", "i32")),
            },
        }
    }

    pub fn decode_i64(self) -> (r: Result<i64, CtsAnnotationError>)
        ensures
            view_result(r) == spec_decode_i64(self),
    {
        match self {
            AnnDeserializer::Annotation(_) => Err(conv_error("annotation", "i64")),
            AnnDeserializer::Numeric(numeric) => match numeric {
                Numeric::Int8(v) => Ok(*v as i64),
                Numeric::Int16(v) => Ok(*v as i64),
                Numeric::Int32(v) => Ok(*v as i64),
                Numeric::Int64(v) => Ok(*v),
                Numeric::UInt8(v) => Ok(*v as i64),
                Numeric::UInt16(v) => Ok(*v as i64),
                Numeric::UInt32(v) => Ok(*v as i64),
                Numeric::UInt64(v) => {
                    if *v <= i64::MAX as u64 {
                        Ok(*v as i64)
                    } else {
                        Err(conv_error("value", "i64 (value too large)"))
                    }
                },
                _ => Err(conv_error("value", "i64")),
            },
        }
    }

    pub fn decode_u8(self) -> (r: Result<u8, CtsAnnotationError>)
        ensures
            view_result(r) == spec_decode_prim(self, |n: Numeric| num_u8(n), "u8"@),
    {
        match self {
            AnnDeserializer::Annotation(_) => Err(conv_error("annotation", "u8")),
            AnnDeserializer::Numeric(numeric) => match numeric {
                Numeric::UInt8(v) => Ok(*v),
                _ => Err(conv_error("value", "u8")),
            },
        }
    }

    pub fn decode_u16(self) -> (r: Result<u16, CtsAnnotationError>)
        ensures
            view_result(r) == spec_decode_prim(self, |n: Numeric| num_u16(n), "u16"@),
    {
        match self {
            AnnDeserializer::Annotation(_) => Err(conv_error("annotation", "u16")),
            AnnDeserializer::Numeric(numeric) => match numeric {
                Numeric::UInt8(v) => Ok(*v as u16),
                Numeric::UInt16(v) => Ok(*v),
                _ => Err(conv_error("value", "u16")),
            },
        }
    }

    pub fn decode_u32(self) -> (r: Result<u32, CtsAnnotationError>)
        ensures
            view_result(r) == spec_decode_prim(self, |n: Numeric| num_u32(n), "u32"@),
    {
        match self {
            AnnDeserializer::Annotation(_) => Err(conv_error("annotation", "u32")),
            AnnDeserializer::Numeric(numeric) => match numeric {
                Numeric::UInt8(v) => Ok(*v as u32),
                Numeric::UInt16(v) => Ok(*v as u32),
                Numeric::UInt32(v) => Ok(*v),
                _ => Err(conv_error("value", "u32")),
            },
        }
    }

    pub fn decode_u64(self) -> (r: Result<u64, CtsAnnotationError>)
        ensures
            view_result(r) == spec_decode_prim(self, |n: Numeric| num_u64(n), "u64"@),
    {
        match self {
            AnnDeserializer::Annotation(_) => Err(conv_error("annotation", "u64")),
            AnnDeserializer::Numeric(numeric) => match numeric {
                Numeric::UInt8(v) => Ok(*v as u64),
                Numeric::UInt16(v) => Ok(*v as u64),
                Numeric::UInt32(v) => Ok(*v as u64),
                Numeric::UInt64(v) => Ok(*v),
                _ => Err(conv_error("value", "u64")),
            },
        }
    }

    pub fn decode_char(self) -> (r: Result<char, CtsAnnotationError>)
        ensures
            view_result(r) == spec_decode_prim(self, |n: Numeric| num_char(n), "char"@),
    {
        match self {
            AnnDeserializer::Annotation(_) => Err(conv_error("annotation", "char")),
            AnnDeserializer::Numeric(numeric) => match numeric {
                Numeric::Char(c) | Numeric::WChar(c) => Ok(*c),
                _ => Err(conv_error("value", "char")),
            },
        }
    }

    pub fn decode_wchar(self) -> (r: Result<char, CtsAnnotationError>)
        ensures
            view_result(r) == spec_decode_prim(self, |n: Numeric| num_char(n), "char"@),
    {
        self.decode_char()
    }

    pub fn decode_string(self) -> (r: Result<String, CtsAnnotationError>)
        ensures
            view_result(r) == spec_decode_prim(self, |n: Numeric| num_string(n), "string"@),
    {
        match self {
            AnnDeserializer::Annotation(_) => Err(conv_error("annotation", "string")),
            AnnDeserializer::Numeric(numeric) => match numeric {
                Numeric::String(s) | Numeric::WString(s) => Ok(s.clone()),
                _ => Err(conv_error("value", "string")),
            },
        }
    }

    pub fn decode_wstring(self) -> (r: Result<String, CtsAnnotationError>)
        ensures
            view_result(r) == spec_decode_prim(self, |n: Numeric| num_string(n), "string"@),
    {
        self.decode_string()
    }
}

/// Position of the first argument named `name`.
pub open spec fn spec_position(args: Seq<AnnArg>, name: Seq<char>) -> Option<int>
    decreases args.len(),
{
    if args.len() == 0 {
        None
    } else if args[0].ident.name@ == name {
        Some(0)
    } else {
        match spec_position(args.subrange(1, args.len() as int), name) {
            Some(i) => Some(i + 1),
            None => None,
        }
    }
}

proof fn lemma_position_bounds(args: Seq<AnnArg>, name: Seq<char>)
    ensures
        spec_position(args, name) matches Some(i) ==> 0 <= i < args.len() && args[i].ident.name@ == name
            && forall|j: int| 0 <= j < i ==> args[j].ident.name@ != name,
        spec_position(args, name) is None ==> forall|j: int| 0 <= j < args.len() ==> args[j].ident.name@ != name,
    decreases args.len(),
{
    if args.len() > 0 && args[0].ident.name@ != name {
        let rest = args.subrange(1, args.len() as int);
        lemma_position_bounds(rest, name);
        assert forall|j: int| 1 <= j < args.len() implies args[j] == rest[j - 1] by {}
    }
}

/// The argument that supplies field `name`, the `index`-th field of the
/// annotation type: the first argument with that name, or, for a leading
/// field named `value`, the first argument.
pub open spec fn spec_field_arg(ann: Ann, name: Seq<char>, index: nat) -> Option<int> {
    match spec_position(ann.args@, name) {
        Some(i) => Some(i),
        None => if name == "value"@ && index == 0 && ann.args@.len() > 0 {
            Some(0)
        } else {
            None
        },
    }
}

/// Find the argument that supplies a field, by name or, for a leading field
/// named `value`, by position.
fn field_arg<'a>(ann: &'a Ann, name: &str, field_index: usize) -> (r: Option<&'a AnnArg>)
    ensures
        r is Some <==> spec_field_arg(*ann, name@, field_index as nat) is Some,
        r matches Some(a) ==> *a == ann.args@[spec_field_arg(*ann, name@, field_index as nat)->Some_0],
{
    proof {
        lemma_position_bounds(ann.args@, name@);
    }
    let mut i: usize = 0;
    while i < ann.args.len()
        invariant
            0 <= i <= ann.args@.len(),
            forall|j: int| 0 <= j < i ==> ann.args@[j].ident.name@ != name@,
            spec_position(ann.args@, name@) matches Some(k) ==> k >= i,
        decreases ann.args@.len() - i,
    {
        proof {
            lemma_position_bounds(ann.args@, name@);
        }
        if str_eq(ann.args[i].ident.name.as_str(), name) {
            proof {
                lemma_position_bounds(ann.args@, name@);
            }
            return Some(&ann.args[i]);
        }
        i = i + 1;
    }
    proof {
        lemma_position_bounds(ann.args@, name@);
    }
    if str_eq(name, "value") && field_index == 0 && ann.args.len() > 0 {
        proof {
            reveal_strlit("value");
        }
        Some(&ann.args[0])
    } else {
        None
    }
}

/// The @optional annotation.
#[derive(Debug, Clone, Copy, PartialEq, Eq)]
pub struct Optional {
    pub value: bool,
}

impl View for Optional {
    type V = bool;

    open spec fn view(&self) -> bool {
        self.value
    }
}

/// The @range annotation.
#[derive(Debug, Clone, Copy, PartialEq, Eq, Default)]
pub struct Range {
    pub min: Option<i64>,
    pub max: Option<i64>,
}

impl View for Range {
    type V = (Option<i64>, Option<i64>);

    open spec fn view(&self) -> (Option<i64>, Option<i64>) {
        (self.min, self.max)
    }
}

/// The @min annotation.
#[derive(Debug, Clone, Copy, PartialEq, Eq, Default)]
pub struct Min {
    pub value: i64,
}

impl View for Min {
    type V = i64;

    open spec fn view(&self) -> i64 {
        self.value
    }
}

/// The @max annotation.
#[derive(Debug, Clone, Copy, PartialEq, Eq, Default)]
pub struct Max {
    pub value: i64,
}

impl View for Max {
    type V = i64;

    open spec fn view(&self) -> i64 {
        self.value
    }
}

/// The @default annotation.
#[derive(Debug, Clone, PartialEq, Eq, Default)]
pub struct DefaultValue {
    pub value: String,
}

impl View for DefaultValue {
    type V = Seq<char>;

    open spec fn view(&self) -> Seq<char> {
        self.value@
    }
}

/// Access mode named by the @mode annotation.
#[derive(Debug, Clone, Copy, PartialEq, Eq, Structural)]
pub enum Mode {
    ReadWrite,
    ReadOnly,
    WriteOnly,
}

impl View for Mode {
    type V = Mode;

    open spec fn view(&self) -> Mode {
        *self
    }
}

/// The @mode annotation.
#[derive(Debug, Clone, Copy, PartialEq, Eq)]
pub struct ModeAnnotation {
    pub value: Mode,
}

impl View for ModeAnnotation {
    type V = Mode;

    open spec fn view(&self) -> Mode {
        self.value
    }
}

/// The mode an enumerator name denotes.
pub open spec fn spec_mode_of_name(name: Seq<char>) -> Result<Mode, CtsAnnotationErrorView> {
    if name == "read_write"@ {
        Ok(Mode::ReadWrite)
    } else if name == "read_only"@ {
        Ok(Mode::ReadOnly)
    } else if name == "write_only"@ {
        Ok(Mode::WriteOnly)
    } else {
        Err(CtsAnnotationErrorView::DeserializationError("Unknown mode: "@ + name))
    }
}

impl Mode {
    /// The mode an enumerator name denotes.
    pub fn member_field(name: &str) -> (r: Result<Mode, CtsAnnotationError>)
        ensures
            view_result(r) == spec_mode_of_name(name@),
    {
        if str_eq(name, "read_write") {
            Ok(Mode::ReadWrite)
        } else if str_eq(name, "read_only") {
            Ok(Mode::ReadOnly)
        } else if str_eq(name, "write_only") {
            Ok(Mode::WriteOnly)
        } else {
            let mut msg = owned("Unknown mode: ");
            msg.append(name);
            Err(CtsAnnotationError::DeserializationError(msg))
        }
    }
}

/// An enumerator given by its name.
pub struct StringEnumDeserializer {
    value: String,
}

impl StringEnumDeserializer {
    /// The enumerator name held.
    pub closed spec fn name(&self) -> Seq<char> {
        self.value@
    }

    pub fn new(value: &str) -> (d: Self)
        ensures
            d.name() == value@,
    {
        StringEnumDeserializer { value: owned(value) }
    }

    /// Decode the access mode the name denotes.
    pub fn decode_enumerator(self) -> (r: Result<Mode, CtsAnnotationError>)
        ensures
            view_result(r) == spec_mode_of_name(self.name()),
    {
        Mode::member_field(self.value.as_str())
    }
}

/// Decoding a mode: the value must be a string naming one of the modes.
pub open spec fn spec_decode_mode(d: AnnDeserializer) -> Result<Mode, CtsAnnotationErrorView> {
    match d {
        AnnDeserializer::Annotation(_) => conv_err("annotation"@, "enum"@),
        AnnDeserializer::Numeric(n) => spec_num_mode(*n),
    }
}

/// Decoding a mode from a value.
pub open spec fn spec_num_mode(n: Numeric) -> Result<Mode, CtsAnnotationErrorView> {
    match num_string(n) {
        Some(s) => spec_mode_of_name(s),
        None => conv_err("value"@, "string (for enum)"@),
    }
}

impl<'a> AnnDeserializer<'a> {
    /// Decode an access mode from its enumerator name.
    pub fn decode_mode(self) -> (r: Result<Mode, CtsAnnotationError>)
        ensures
            view_result(r) == spec_decode_mode(self),
    {
        match self {
            AnnDeserializer::Annotation(_) => Err(conv_error("annotation", "enum")),
            AnnDeserializer::Numeric(numeric) => match numeric {
                Numeric::String(s) | Numeric::WString(s) => Mode::member_field(s.as_str()),
                _ => Err(conv_error("value", "string (for enum)")),
            },
        }
    }
}

/// Annotation types that can be decoded from an applied annotation.
pub trait AnnUnmarshal: Sized + View {
    /// What decoding an annotation gives, as abstract content.
    spec fn spec_unmarshal(ann: Ann) -> Result<Self::V, CtsAnnotationErrorView>;

    /// Decode the annotation's arguments into this type's fields; fields
    /// without an argument keep their defaults.
    fn unmarshal_from(ann: &Ann) -> (r: Result<Self, CtsAnnotationError>)
        ensures
            view_result(r) == Self::spec_unmarshal(*ann);
}

impl AnnUnmarshal for Optional {
    /// `value` defaults to true.
    open spec fn spec_unmarshal(ann: Ann) -> Result<bool, CtsAnnotationErrorView> {
        match spec_field_arg(ann, "value"@, 0) {
            None => Ok(true),
            Some(i) => spec_num_prim(ann.args@[i].value, |n: Numeric| num_bool(n), "bool"@),
        }
    }

    fn unmarshal_from(ann: &Ann) -> (r: Result<Self, CtsAnnotationError>) {
        let mut value = true;
        if let Some(arg) = field_arg(ann, "value", 0) {
            value = AnnDeserializer::from_numeric(&arg.value).decode_bool()?;
        }
        Ok(Optional { value })
    }
}

/// An optional signed field: absent stays `None`, present must decode.
pub open spec fn spec_opt_i64(ann: Ann, name: Seq<char>, index: nat) -> Result<Option<i64>, CtsAnnotationErrorView> {
    match spec_field_arg(ann, name, index) {
        None => Ok(None),
        Some(i) => match spec_num_i64(ann.args@[i].value) {
            Ok(v) => Ok(Some(v)),
            Err(e) => Err(e),
        },
    }
}

impl AnnUnmarshal for Range {
    open spec fn spec_unmarshal(ann: Ann) -> Result<(Option<i64>, Option<i64>), CtsAnnotationErrorView> {
        match spec_opt_i64(ann, "min"@, 0) {
            Err(e) => Err(e),
            Ok(min) => match spec_opt_i64(ann, "max"@, 1) {
                Err(e) => Err(e),
                Ok(max) => Ok((min, max)),
            },
        }
    }

    fn unmarshal_from(ann: &Ann) -> (r: Result<Self, CtsAnnotationError>) {
        let mut min: Option<i64> = None;
        let mut max: Option<i64> = None;
        if let Some(arg) = field_arg(ann, "min", 0) {
            min = Some(AnnDeserializer::from_numeric(&arg.value).decode_i64()?);
        }
        if let Some(arg) = field_arg(ann, "max", 1) {
            max = Some(AnnDeserializer::from_numeric(&arg.value).decode_i64()?);
        }
        Ok(Range { min, max })
    }
}

/// A signed `value` field that defaults to 0.
pub open spec fn spec_value_i64(ann: Ann) -> Result<i64, CtsAnnotationErrorView> {
    match spec_field_arg(ann, "value"@, 0) {
        None => Ok(0),
        Some(i) => spec_num_i64(ann.args@[i].value),
    }
}

impl AnnUnmarshal for Min {
    open spec fn spec_unmarshal(ann: Ann) -> Result<i64, CtsAnnotationErrorView> {
        spec_value_i64(ann)
    }

    fn unmarshal_from(ann: &Ann) -> (r: Result<Self, CtsAnnotationError>) {
        let mut value: i64 = 0;
        if let Some(arg) = field_arg(ann, "value", 0) {
            value = AnnDeserializer::from_numeric(&arg.value).decode_i64()?;
        }
        Ok(Min { value })
    }
}

impl AnnUnmarshal for Max {
    open spec fn spec_unmarshal(ann: Ann) -> Result<i64, CtsAnnotationErrorView> {
        spec_value_i64(ann)
    }

    fn unmarshal_from(ann: &Ann) -> (r: Result<Self, CtsAnnotationError>) {
        let mut value: i64 = 0;
        if let Some(arg) = field_arg(ann, "value", 0) {
            value = AnnDeserializer::from_numeric(&arg.value).decode_i64()?;
        }
        Ok(Max { value })
    }
}

impl AnnUnmarshal for DefaultValue {
    /// `value` defaults to the empty string.
    open spec fn spec_unmarshal(ann: Ann) -> Result<Seq<char>, CtsAnnotationErrorView> {
        match spec_field_arg(ann, "value"@, 0) {
            None => Ok(Seq::<char>::empty()),
            Some(i) => spec_num_prim(ann.args@[i].value, |n: Numeric| num_string(n), "string"@),
        }
    }

    fn unmarshal_from(ann: &Ann) -> (r: Result<Self, CtsAnnotationError>) {
        let mut value = String::new();
        if let Some(arg) = field_arg(ann, "value", 0) {
            value = AnnDeserializer::from_numeric(&arg.value).decode_string()?;
        }
        Ok(DefaultValue { value })
    }
}

impl AnnUnmarshal for ModeAnnotation {
    /// `value` defaults to read-write.
    open spec fn spec_unmarshal(ann: Ann) -> Result<Mode, CtsAnnotationErrorView> {
        match spec_field_arg(ann, "value"@, 0) {
            None => Ok(Mode::ReadWrite),
            Some(i) => spec_num_mode(ann.args@[i].value),
        }
    }

    fn unmarshal_from(ann: &Ann) -> (r: Result<Self, CtsAnnotationError>) {
        let mut value = Mode::ReadWrite;
        if let Some(arg) = field_arg(ann, "value", 0) {
            value = AnnDeserializer::from_numeric(&arg.value).decode_mode()?;
        }
        Ok(ModeAnnotation { value })
    }
}

/// Decoding under an expected annotation name: a different name is refused.
pub open spec fn spec_unmarshal_annotation<T: AnnUnmarshal>(ann: Ann, expected: Seq<char>) -> Result<T::V, CtsAnnotationErrorView> {
    if ann.ident.name@ != expected {
        Err(CtsAnnotationErrorView::WrongAnnotationType { expected, actual: ann.ident.name@ })
    } else {
        T::spec_unmarshal(ann)
    }
}

/// Deserialize an annotation with a specific expected name.
pub fn unmarshal_annotation<T: AnnUnmarshal>(ann: &Ann, expected_name: &'static str) -> (r: Result<T, CtsAnnotationError>)
    ensures
        view_result(r) == spec_unmarshal_annotation::<T>(*ann, expected_name@),
{
    if !str_eq(ann.ident.name.as_str(), expected_name) {
        return Err(CtsAnnotationError::WrongAnnotationType {
            expected: expected_name,
            actual: ann.ident.name.clone(),
        });
    }
    T::unmarshal_from(ann)
}

/// Extension trait for `Ann` to provide deserialization.
pub trait AnnCtsExt {
    /// Try to deserialize this annotation to a specific type.
    fn unmarshal<T: AnnUnmarshal>(&self, expected_name: &'static str) -> (r: Result<T, CtsAnnotationError>);
}

impl AnnCtsExt for Ann {
    fn unmarshal<T: AnnUnmarshal>(&self, expected_name: &'static str) -> (r: Result<T, CtsAnnotationError>)
        ensures
            view_result(r) == spec_unmarshal_annotation::<T>(*self, expected_name@),
    {
        unmarshal_annotation::<T>(self, expected_name)
    }
}

/// Position of the first annotation with the given name.
pub open spec fn spec_find_named(anns: Seq<Ann>, name: Seq<char>) -> Option<int>
    decreases anns.len(),
{
    if anns.len() == 0 {
        None
    } else if anns[0].ident.name@ == name {
        Some(0)
    } else {
        match spec_find_named(anns.subrange(1, anns.len() as int), name) {
            Some(i) => Some(i + 1),
            None => None,
        }
    }
}

proof fn lemma_find_named_bounds(anns: Seq<Ann>, name: Seq<char>)
    ensures
        spec_find_named(anns, name) matches Some(i) ==> 0 <= i < anns.len() && anns[i].ident.name@ == name
            && forall|j: int| 0 <= j < i ==> anns[j].ident.name@ != name,
        spec_find_named(anns, name) is None ==> forall|j: int| 0 <= j < anns.len() ==> anns[j].ident.name@ != name,
    decreases anns.len(),
{
    if anns.len() > 0 && anns[0].ident.name@ != name {
        let rest = anns.subrange(1, anns.len() as int);
        lemma_find_named_bounds(rest, name);
        assert forall|j: int| 1 <= j < anns.len() implies anns[j] == rest[j - 1] by {}
    }
}

/// Find the first annotation with the given name and decode it.
pub fn find_annotation<T: AnnUnmarshal>(annotations: &[Ann], name: &'static str) -> (r: Option<Result<T, CtsAnnotationError>>)
    ensures
        r is Some <==> spec_find_named(annotations@, name@) is Some,
        r matches Some(res) ==> view_result(res) == T::spec_unmarshal(annotations@[spec_find_named(annotations@, name@)->Some_0]),
{
    proof {
        lemma_find_named_bounds(annotations@, name@);
    }
    let mut i: usize = 0;
    while i < annotations.len()
        invariant
            0 <= i <= annotations@.len(),
            forall|j: int| 0 <= j < i ==> annotations@[j].ident.name@ != name@,
            spec_find_named(annotations@, name@) matches Some(k) ==> k >= i,
        decreases annotations@.len() - i,
    {
        proof {
            lemma_find_named_bounds(annotations@, name@);
        }
        if str_eq(annotations[i].ident.name.as_str(), name) {
            proof {
                lemma_find_named_bounds(annotations@, name@);
            }
            return Some(unmarshal_annotation::<T>(&annotations[i], name));
        }
        i = i + 1;
    }
    proof {
        lemma_find_named_bounds(annotations@, name@);
    }
    None
}

} // verus!
