//! Typed views of applied annotations: `@optional`, `@range` and
//! `@default`, decoded from their named arguments.

use vstd::prelude::*;
use crate::hir::{Ann, AnnArg, Numeric, clone_numeric, spec_numeric_eqv};
use crate::text::{decimal_i64, lemma_first_index, lemma_first_index_is, owned, spec_first_index, spec_signed_decimal, str_eq};

verus! {

/// Error of annotation decoding.
#[derive(Debug)]
pub enum AnnotationError {
    /// The annotation name doesn't match the expected type.
    WrongAnnotationType { expected: &'static str, actual: String },
    /// Required argument is missing.
    MissingArgument { name: &'static str },
    /// Argument has wrong type.
    InvalidArgumentType { name: &'static str, expected: &'static str },
    /// Unexpected argument provided.
    UnexpectedArgument { name: String },
    /// Value is out of valid range.
    ValueOutOfRange { name: &'static str, value: String },
}

/// The abstract content of an [`AnnotationError`].
pub enum AnnotationErrorView {
    WrongAnnotationType { expected: Seq<char>, actual: Seq<char> },
    MissingArgument { name: Seq<char> },
    InvalidArgumentType { name: Seq<char>, expected: Seq<char> },
    UnexpectedArgument { name: Seq<char> },
    ValueOutOfRange { name: Seq<char>, value: Seq<char> },
}

impl View for AnnotationError {
    type V = AnnotationErrorView;

    open spec fn view(&self) -> AnnotationErrorView {
        match self {
            AnnotationError::WrongAnnotationType { expected, actual } => AnnotationErrorView::WrongAnnotationType {
                expected: expected@,
                actual: actual@,
            },
            AnnotationError::MissingArgument { name } => AnnotationErrorView::MissingArgument { name: name@ },
            AnnotationError::InvalidArgumentType { name, expected } => AnnotationErrorView::InvalidArgumentType {
                name: name@,
                expected: expected@,
            },
            AnnotationError::UnexpectedArgument { name } => AnnotationErrorView::UnexpectedArgument { name: name@ },
            AnnotationError::ValueOutOfRange { name, value } => AnnotationErrorView::ValueOutOfRange {
                name: name@,
                value: value@,
            },
        }
    }
}

/// The text a user sees for an annotation error.
pub open spec fn spec_annotation_error_message(e: AnnotationErrorView) -> Seq<char> {
    match e {
        AnnotationErrorView::WrongAnnotationType { expected, actual } => "Expected annotation @"@ + expected
            + " but found @"@ + actual,
        AnnotationErrorView::MissingArgument { name } => "Missing required argument '"@ + name + "'"@,
        AnnotationErrorView::InvalidArgumentType { name, expected } => "Argument '"@ + name + "' has wrong type, expected "@
            + expected,
        AnnotationErrorView::UnexpectedArgument { name } => "Unexpected argument '"@ + name + "'"@,
        AnnotationErrorView::ValueOutOfRange { name, value } => "Argument '"@ + name + "' value "@ + value
            + " is out of range"@,
    }
}

impl AnnotationError {
    /// The text a user sees for this error.
    pub fn message(&self) -> (r: String)
        ensures
            r@ == spec_annotation_error_message(self@),
    {
        match self {
            AnnotationError::WrongAnnotationType { expected, actual } => {
                let mut s = owned("Expected annotation @");
                s.append(expected);
                s.append(" but found @");
                s.append(actual.as_str());
                s
            },
            AnnotationError::MissingArgument { name } => {
                let mut s = owned("Missing required argument '");
                s.append(name);
                s.append("'");
                s
            },
            AnnotationError::InvalidArgumentType { name, expected } => {
                let mut s = owned("Argument '");
                s.append(name);
                s.append("' has wrong type, expected ");
                s.append(expected);
                s
            },
            AnnotationError::UnexpectedArgument { name } => {
                let mut s = owned("Unexpected argument '");
                s.append(name.as_str());
                s.append("'");
                s
            },
            AnnotationError::ValueOutOfRange { name, value } => {
                let mut s = owned("Argument '");
                s.append(name);
                s.append("' value ");
                s.append(value.as_str());
                s.append(" is out of range");
                s
            },
        }
    }
}

/// The abstract content of a decoding result.
pub open spec fn spec_ann_result<T: View>(r: Result<T, AnnotationError>) -> Result<T::V, AnnotationErrorView> {
    match r {
        Ok(v) => Ok(v@),
        Err(e) => Err(e@),
    }
}

/// Position of the last argument named `name`: a later argument overrides
/// an earlier one of the same name.
pub open spec fn spec_last_named(args: Seq<AnnArg>, name: Seq<char>) -> Option<int>
    decreases args.len(),
{
    if args.len() == 0 {
        None
    } else if args.last().ident.name@ == name {
        Some(args.len() - 1)
    } else {
        spec_last_named(args.drop_last(), name)
    }
}

proof fn lemma_last_named_bounds(args: Seq<AnnArg>, name: Seq<char>)
    ensures
        spec_last_named(args, name) matches Some(i) ==> 0 <= i < args.len() && args[i].ident.name@ == name,
    decreases args.len(),
{
    if args.len() > 0 && args.last().ident.name@ != name {
        lemma_last_named_bounds(args.drop_last(), name);
    }
}

/// Find the last argument with the given name.
fn last_named(args: &Vec<AnnArg>, name: &str) -> (r: Option<usize>)
    ensures
        r matches Some(i) ==> spec_last_named(args@, name@) == Some(i as int),
        r is None ==> spec_last_named(args@, name@) is None,
{
    let mut i: usize = args.len();
    assert(args@.subrange(0, i as int) =~= args@);
    while i > 0
        invariant
            0 <= i <= args@.len(),
            spec_last_named(args@.subrange(0, i as int), name@) == spec_last_named(args@, name@),
        decreases i,
    {
        let ghost p = args@.subrange(0, i as int);
        proof {
            assert(p.drop_last() =~= args@.subrange(0, i - 1));
            assert(p.last() == args@[i - 1]);
        }
        if str_eq(args[i - 1].ident.name.as_str(), name) {
            return Some(i - 1);
        }
        i -= 1;
    }
    None
}

/// Whether an argument's name is neither `a` nor `b`.
pub open spec fn spec_named_neither(a: Seq<char>, b: Seq<char>) -> spec_fn(AnnArg) -> bool {
    |arg: AnnArg| arg.ident.name@ != a && arg.ident.name@ != b
}

/// Find the first argument whose name is neither `a` nor `b`.
fn first_unexpected(args: &Vec<AnnArg>, a: &str, b: &str) -> (r: Option<usize>)
    ensures
        r matches Some(i) ==> spec_first_index(args@, spec_named_neither(a@, b@)) == Some(i as int),
        r is None ==> spec_first_index(args@, spec_named_neither(a@, b@)) is None,
{
    let ghost p = spec_named_neither(a@, b@);
    let mut i: usize = 0;
    while i < args.len()
        invariant
            0 <= i <= args@.len(),
            p == spec_named_neither(a@, b@),
            forall|j: int| 0 <= j < i ==> !p(#[trigger] args@[j]),
        decreases args@.len() - i,
    {
        let name = args[i].ident.name.as_str();
        if !str_eq(name, a) && !str_eq(name, b) {
            proof {
                assert(p(args@[i as int]));
                lemma_first_index_is(args@, p, i as int);
            }
            return Some(i);
        }
        i += 1;
    }
    proof {
        lemma_first_index(args@, p);
    }
    None
}

/// The argument supplying `value`: the last one named `value`, else the
/// last one named `0`.
pub open spec fn spec_value_arg(args: Seq<AnnArg>) -> Option<int> {
    match spec_last_named(args, "value"@) {
        Some(i) => Some(i),
        None => spec_last_named(args, "0"@),
    }
}

fn value_arg(args: &Vec<AnnArg>) -> (r: Option<usize>)
    ensures
        r matches Some(i) ==> spec_value_arg(args@) == Some(i as int),
        r is None ==> spec_value_arg(args@) is None,
{
    match last_named(args, "value") {
        Some(i) => Some(i),
        None => last_named(args, "0"),
    }
}

/// The integer reading of an argument value; unsigned 64-bit values above
/// the signed maximum and non-integers have none.
pub open spec fn spec_numeric_i64(n: Numeric) -> Option<i64> {
    match n {
        Numeric::Int8(v) => Some(v as i64),
        Numeric::Int16(v) => Some(v as i64),
        Numeric::Int32(v) => Some(v as i64),
        Numeric::Int64(v) => Some(v),
        Numeric::UInt8(v) => Some(v as i64),
        Numeric::UInt16(v) => Some(v as i64),
        Numeric::UInt32(v) => Some(v as i64),
        Numeric::UInt64(v) => if v <= i64::MAX as u64 { Some(v as i64) } else { None },
        _ => None,
    }
}

/// The optional integer argument `name`: absent is `None`; present but not
/// an integer is an error.
pub open spec fn spec_numeric_arg(args: Seq<AnnArg>, name: Seq<char>) -> Result<Option<i64>, AnnotationErrorView> {
    match spec_last_named(args, name) {
        None => Ok(None),
        Some(i) => match spec_numeric_i64(args[i].value) {
            Some(v) => Ok(Some(v)),
            None => Err(AnnotationErrorView::InvalidArgumentType { name, expected: "numeric"@ }),
        },
    }
}

fn numeric_i64(n: &Numeric) -> (r: Option<i64>)
    ensures
        r == spec_numeric_i64(*n),
{
    match n {
        Numeric::Int8(v) => Some(*v as i64),
        Numeric::Int16(v) => Some(*v as i64),
        Numeric::Int32(v) => Some(*v as i64),
        Numeric::Int64(v) => Some(*v),
        Numeric::UInt8(v) => Some(*v as i64),
        Numeric::UInt16(v) => Some(*v as i64),
        Numeric::UInt32(v) => Some(*v as i64),
        Numeric::UInt64(v) => if *v <= i64::MAX as u64 {
            Some(*v as i64)
        } else {
            None
        },
        _ => None,
    }
}

fn get_numeric_arg(args: &Vec<AnnArg>, name: &'static str) -> (r: Result<Option<i64>, AnnotationError>)
    ensures
        spec_ann_result(r) == spec_numeric_arg(args@, name@),
{
    proof {
        lemma_last_named_bounds(args@, name@);
    }
    match last_named(args, name) {
        None => Ok(None),
        Some(i) => match numeric_i64(&args[i].value) {
            Some(v) => Ok(Some(v)),
            None => Err(AnnotationError::InvalidArgumentType { name, expected: "numeric" }),
        },
    }
}

/// The boolean argument `name`: absent gives `default`; present but not a
/// boolean is an error.
pub open spec fn spec_bool_arg(args: Seq<AnnArg>, name: Seq<char>, default: bool) -> Result<bool, AnnotationErrorView> {
    match spec_last_named(args, name) {
        None => Ok(default),
        Some(i) => match args[i].value {
            Numeric::Bool(b) => Ok(b),
            _ => Err(AnnotationErrorView::InvalidArgumentType { name, expected: "boolean"@ }),
        },
    }
}

/// Get a boolean argument, with a default when it is absent.
pub fn get_bool_arg(args: &Vec<AnnArg>, name: &'static str, default: bool) -> (r: Result<bool, AnnotationError>)
    ensures
        spec_ann_result(r) == spec_bool_arg(args@, name@, default),
{
    proof {
        lemma_last_named_bounds(args@, name@);
    }
    match last_named(args, name) {
        None => Ok(default),
        Some(i) => match &args[i].value {
            Numeric::Bool(b) => Ok(*b),
            _ => Err(AnnotationError::InvalidArgumentType { name, expected: "boolean" }),
        },
    }
}

/// The string argument `name`, which is required.
pub open spec fn spec_string_arg(args: Seq<AnnArg>, name: Seq<char>) -> Result<Seq<char>, AnnotationErrorView> {
    match spec_last_named(args, name) {
        None => Err(AnnotationErrorView::MissingArgument { name }),
        Some(i) => match args[i].value {
            Numeric::String(s) => Ok(s@),
            _ => Err(AnnotationErrorView::InvalidArgumentType { name, expected: "string"@ }),
        },
    }
}

/// Get a required string argument.
pub fn get_string_arg<'a>(args: &'a Vec<AnnArg>, name: &'static str) -> (r: Result<&'a str, AnnotationError>)
    ensures
        match r {
            Ok(s) => spec_string_arg(args@, name@) == Ok::<Seq<char>, AnnotationErrorView>(s@),
            Err(e) => spec_string_arg(args@, name@) == Err::<Seq<char>, AnnotationErrorView>(e@),
        },
{
    proof {
        lemma_last_named_bounds(args@, name@);
    }
    match last_named(args, name) {
        None => Err(AnnotationError::MissingArgument { name }),
        Some(i) => match &args[i].value {
            Numeric::String(s) => Ok(s.as_str()),
            _ => Err(AnnotationError::InvalidArgumentType { name, expected: "string" }),
        },
    }
}

/// A strongly-typed annotation, decoded from an applied annotation.
pub trait Annotation: Sized {
    /// The name of the annotation (without the `@`).
    spec fn spec_name() -> Seq<char>;

    /// Whether `r` is the outcome of decoding `ann`.
    spec fn spec_decodes(ann: Ann, r: Result<Self, AnnotationError>) -> bool;

    /// The name of the annotation (without the `@`).
    fn annotation_name() -> (s: &'static str)
        ensures
            s@ == Self::spec_name(),
    ;

    /// Convert an applied annotation to its typed representation.
    fn from_hir(ann: &Ann) -> (r: Result<Self, AnnotationError>)
        ensures
            Self::spec_decodes(*ann, r),
    ;
}

/// The refusal of an annotation whose name is not `expected`.
pub open spec fn spec_wrong_type(ann: Ann, expected: Seq<char>) -> AnnotationErrorView {
    AnnotationErrorView::WrongAnnotationType { expected, actual: ann.ident.name@ }
}

/// The @optional annotation.
#[derive(Debug, Clone, Copy, PartialEq, Eq)]
pub struct Optional {
    /// Whether the member is optional (default: true).
    pub value: bool,
}

impl View for Optional {
    type V = bool;

    open spec fn view(&self) -> bool {
        self.value
    }
}

/// Decoding `@optional`: only `value` (or positional `0`) may be given, and
/// it must be a boolean; without it the member is optional.
pub open spec fn spec_optional(ann: Ann) -> Result<bool, AnnotationErrorView> {
    if ann.ident.name@ != "optional"@ {
        Err(spec_wrong_type(ann, "optional"@))
    } else {
        match spec_first_index(ann.args@, spec_named_neither("value"@, "0"@)) {
            Some(i) => Err(AnnotationErrorView::UnexpectedArgument { name: ann.args@[i].ident.name@ }),
            None => match spec_value_arg(ann.args@) {
                Some(i) => match ann.args@[i].value {
                    Numeric::Bool(b) => Ok(b),
                    _ => Err(AnnotationErrorView::InvalidArgumentType { name: "value"@, expected: "boolean"@ }),
                },
                None => Ok(true),
            },
        }
    }
}

/// `@optional` with no argument means true; with a single boolean
/// argument, named `value` or given by position, it means that argument;
/// a single argument of another type is refused as not boolean, and one
/// of another name as unexpected.
pub proof fn lemma_optional_takes_its_argument(ann: Ann, b: bool)
    requires
        ann.ident.name@ == "optional"@,
    ensures
        ann.args@.len() == 0 ==> spec_optional(ann) == Ok::<bool, AnnotationErrorView>(true),
        ann.args@.len() == 1 && (ann.args@[0].ident.name@ == "value"@ || ann.args@[0].ident.name@ == "0"@)
            && ann.args@[0].value == Numeric::Bool(b) ==> spec_optional(ann) == Ok::<bool, AnnotationErrorView>(b),
        ann.args@.len() == 1 && (ann.args@[0].ident.name@ == "value"@ || ann.args@[0].ident.name@ == "0"@)
            && !(ann.args@[0].value is Bool) ==> spec_optional(ann) == Err::<bool, AnnotationErrorView>(
            AnnotationErrorView::InvalidArgumentType { name: "value"@, expected: "boolean"@ },
        ),
        ann.args@.len() == 1 && ann.args@[0].ident.name@ != "value"@ && ann.args@[0].ident.name@ != "0"@
            ==> spec_optional(ann) == Err::<bool, AnnotationErrorView>(
            AnnotationErrorView::UnexpectedArgument { name: ann.args@[0].ident.name@ },
        ),
{
    reveal_strlit("value");
    reveal_strlit("0");
    let args = ann.args@;
    let p = spec_named_neither("value"@, "0"@);
    lemma_first_index(args, p);
    if args.len() == 1 {
        assert(args.drop_last().len() == 0);
        assert(spec_last_named(args.drop_last(), "value"@) is None);
        assert(spec_last_named(args.drop_last(), "0"@) is None);
        assert("0"@.len() == 1 && "value"@.len() == 5);
        if args[0].ident.name@ == "0"@ {
            assert(args.last().ident.name@.len() == 1);
            assert(args.last().ident.name@ != "value"@);
        }
    }
}

impl Annotation for Optional {
    open spec fn spec_name() -> Seq<char> {
        "optional"@
    }

    open spec fn spec_decodes(ann: Ann, r: Result<Self, AnnotationError>) -> bool {
        spec_ann_result(r) == spec_optional(ann)
    }

    fn annotation_name() -> (s: &'static str) {
        "optional"
    }

    fn from_hir(ann: &Ann) -> (r: Result<Self, AnnotationError>) {
        if !str_eq(ann.ident.name.as_str(), "optional") {
            return Err(AnnotationError::WrongAnnotationType { expected: "optional", actual: ann.ident.name.clone() });
        }
        proof {
            lemma_first_index(ann.args@, spec_named_neither("value"@, "0"@));
            lemma_last_named_bounds(ann.args@, "value"@);
            lemma_last_named_bounds(ann.args@, "0"@);
        }
        if let Some(i) = first_unexpected(&ann.args, "value", "0") {
            return Err(AnnotationError::UnexpectedArgument { name: ann.args[i].ident.name.clone() });
        }
        match value_arg(&ann.args) {
            Some(i) => match &ann.args[i].value {
                Numeric::Bool(b) => Ok(Optional { value: *b }),
                _ => Err(AnnotationError::InvalidArgumentType { name: "value", expected: "boolean" }),
            },
            None => Ok(Optional { value: true }),
        }
    }
}

} // verus!

verus! {

/// The @range annotation.
#[derive(Debug, Clone, Copy, PartialEq, Eq)]
pub struct Range {
    /// Minimum value (inclusive).
    pub min: Option<i64>,
    /// Maximum value (inclusive).
    pub max: Option<i64>,
}

impl View for Range {
    type V = (Option<i64>, Option<i64>);

    open spec fn view(&self) -> (Option<i64>, Option<i64>) {
        (self.min, self.max)
    }
}

/// Decoding `@range`: only `min` and `max` may be given, each an integer;
/// a minimum above the maximum is refused.
pub open spec fn spec_range(ann: Ann) -> Result<(Option<i64>, Option<i64>), AnnotationErrorView> {
    if ann.ident.name@ != "range"@ {
        Err(spec_wrong_type(ann, "range"@))
    } else {
        match spec_first_index(ann.args@, spec_named_neither("min"@, "max"@)) {
            Some(i) => Err(AnnotationErrorView::UnexpectedArgument { name: ann.args@[i].ident.name@ }),
            None => match spec_numeric_arg(ann.args@, "min"@) {
                Err(e) => Err(e),
                Ok(min) => match spec_numeric_arg(ann.args@, "max"@) {
                    Err(e) => Err(e),
                    Ok(max) => match (min, max) {
                        (Some(lo), Some(hi)) => if lo > hi {
                            Err(
                                AnnotationErrorView::ValueOutOfRange {
                                    name: "range"@,
                                    value: "min "@ + spec_signed_decimal(lo as int) + " > max "@ + spec_signed_decimal(
                                        hi as int,
                                    ),
                                },
                            )
                        } else {
                            Ok((min, max))
                        },
                        _ => Ok((min, max)),
                    },
                },
            },
        }
    }
}

impl Annotation for Range {
    open spec fn spec_name() -> Seq<char> {
        "range"@
    }

    open spec fn spec_decodes(ann: Ann, r: Result<Self, AnnotationError>) -> bool {
        spec_ann_result(r) == spec_range(ann)
    }

    fn annotation_name() -> (s: &'static str) {
        "range"
    }

    fn from_hir(ann: &Ann) -> (r: Result<Self, AnnotationError>) {
        if !str_eq(ann.ident.name.as_str(), "range") {
            return Err(AnnotationError::WrongAnnotationType { expected: "range", actual: ann.ident.name.clone() });
        }
        proof {
            lemma_first_index(ann.args@, spec_named_neither("min"@, "max"@));
        }
        if let Some(i) = first_unexpected(&ann.args, "min", "max") {
            return Err(AnnotationError::UnexpectedArgument { name: ann.args[i].ident.name.clone() });
        }
        let min = get_numeric_arg(&ann.args, "min")?;
        let max = get_numeric_arg(&ann.args, "max")?;
        if let (Some(lo), Some(hi)) = (min, max) {
            if lo > hi {
                let mut value = owned("min ");
                value.append(decimal_i64(lo).as_str());
                value.append(" > max ");
                value.append(decimal_i64(hi).as_str());
                return Err(AnnotationError::ValueOutOfRange { name: "range", value });
            }
        }
        Ok(Range { min, max })
    }
}

/// The @default annotation.
#[derive(Debug)]
pub struct DefaultValue {
    /// The default value.
    pub value: Numeric,
}

/// Decoding `@default`: only `value` (or positional `0`) may be given, and
/// it is required. On success the position of the argument that supplies
/// the value.
pub open spec fn spec_default_value(ann: Ann) -> Result<int, AnnotationErrorView> {
    if ann.ident.name@ != "default"@ {
        Err(spec_wrong_type(ann, "default"@))
    } else {
        match spec_first_index(ann.args@, spec_named_neither("value"@, "0"@)) {
            Some(i) => Err(AnnotationErrorView::UnexpectedArgument { name: ann.args@[i].ident.name@ }),
            None => match spec_value_arg(ann.args@) {
                Some(i) => Ok(i),
                None => Err(AnnotationErrorView::MissingArgument { name: "value"@ }),
            },
        }
    }
}

impl Annotation for DefaultValue {
    open spec fn spec_name() -> Seq<char> {
        "default"@
    }

    open spec fn spec_decodes(ann: Ann, r: Result<Self, AnnotationError>) -> bool {
        match spec_default_value(ann) {
            Ok(i) => r matches Ok(d) && spec_numeric_eqv(ann.args@[i].value, d.value),
            Err(e) => r matches Err(re) && re@ == e,
        }
    }

    fn annotation_name() -> (s: &'static str) {
        "default"
    }

    fn from_hir(ann: &Ann) -> (r: Result<Self, AnnotationError>) {
        if !str_eq(ann.ident.name.as_str(), "default") {
            return Err(AnnotationError::WrongAnnotationType { expected: "default", actual: ann.ident.name.clone() });
        }
        proof {
            lemma_first_index(ann.args@, spec_named_neither("value"@, "0"@));
            lemma_last_named_bounds(ann.args@, "value"@);
            lemma_last_named_bounds(ann.args@, "0"@);
        }
        if let Some(i) = first_unexpected(&ann.args, "value", "0") {
            return Err(AnnotationError::UnexpectedArgument { name: ann.args[i].ident.name.clone() });
        }
        match value_arg(&ann.args) {
            Some(i) => Ok(DefaultValue { value: clone_numeric(&ann.args[i].value) }),
            None => Err(AnnotationError::MissingArgument { name: "value" }),
        }
    }
}

/// Downcasting of applied annotations to typed ones.
pub trait AnnExt {
    /// Try to downcast this annotation to a specific type.
    fn downcast<T: Annotation>(&self) -> (r: Result<T, AnnotationError>);

    /// Check if this annotation is of a specific type.
    fn is<T: Annotation>(&self) -> (r: bool);
}

impl AnnExt for Ann {
    fn downcast<T: Annotation>(&self) -> (r: Result<T, AnnotationError>)
        ensures
            T::spec_decodes(*self, r),
    {
        T::from_hir(self)
    }

    fn is<T: Annotation>(&self) -> (r: bool)
        ensures
            r == (self.ident.name@ == T::spec_name()),
    {
        str_eq(self.ident.name.as_str(), T::annotation_name())
    }
}

/// Whether an annotation is named `name`.
pub open spec fn spec_ann_named(name: Seq<char>) -> spec_fn(Ann) -> bool {
    |a: Ann| a.ident.name@ == name
}

/// Find the first annotation of type `T` in a list and decode it.
pub fn find_annotation<T: Annotation>(annotations: &[Ann]) -> (r: Option<Result<T, AnnotationError>>)
    ensures
        match spec_first_index(annotations@, spec_ann_named(T::spec_name())) {
            Some(i) => r matches Some(res) && T::spec_decodes(annotations@[i], res),
            None => r is None,
        },
{
    let ghost p = spec_ann_named(T::spec_name());
    let mut i: usize = 0;
    while i < annotations.len()
        invariant
            0 <= i <= annotations@.len(),
            p == spec_ann_named(T::spec_name()),
            forall|j: int| 0 <= j < i ==> !p(#[trigger] annotations@[j]),
        decreases annotations@.len() - i,
    {
        if annotations[i].is::<T>() {
            proof {
                lemma_first_index_is(annotations@, p, i as int);
            }
            return Some(annotations[i].downcast::<T>());
        }
        i += 1;
    }
    proof {
        lemma_first_index(annotations@, p);
    }
    None
}

} // verus!
