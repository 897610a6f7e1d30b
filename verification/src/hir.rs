//! Type definitions of the HIR.

use vstd::prelude::*;

verus! {

/// Built-in primitive types. These types are effectively stateless and have no
/// bounds or other attributes attached to them.
#[derive(Copy, Clone, Debug, PartialEq, Eq, Structural)]
pub enum PrimitiveTy {
    Void,
    Bool,
    Char,
    WChar,
    Int8,
    UInt8,
    Int16,
    UInt16,
    Int32,
    UInt32,
    Int64,
    UInt64,
    Float32,
    Float64,
    Float128,
}

/// The canonical IDL4 spelling of a primitive type.
pub open spec fn spec_prim_name(p: PrimitiveTy) -> Seq<char> {
    match p {
        PrimitiveTy::Void => "void"@,
        PrimitiveTy::Bool => "boolean"@,
        PrimitiveTy::Char => "char"@,
        PrimitiveTy::WChar => "wchar"@,
        PrimitiveTy::Int8 => "int8"@,
        PrimitiveTy::UInt8 => "uint8"@,
        PrimitiveTy::Int16 => "int16"@,
        PrimitiveTy::UInt16 => "uint16"@,
        PrimitiveTy::Int32 => "int32"@,
        PrimitiveTy::UInt32 => "uint32"@,
        PrimitiveTy::Int64 => "int64"@,
        PrimitiveTy::UInt64 => "uint64"@,
        PrimitiveTy::Float32 => "float"@,
        PrimitiveTy::Float64 => "double"@,
        PrimitiveTy::Float128 => "long double"@,
    }
}

/// The classic (pre-IDL4) spelling of a primitive type.
pub open spec fn spec_prim_legacy_name(p: PrimitiveTy) -> Seq<char> {
    match p {
        PrimitiveTy::Void => "void"@,
        PrimitiveTy::Bool => "boolean"@,
        PrimitiveTy::Char => "char"@,
        PrimitiveTy::WChar => "wchar"@,
        PrimitiveTy::Int8 => "int8"@,
        PrimitiveTy::UInt8 => "octet"@,
        PrimitiveTy::Int16 => "short"@,
        PrimitiveTy::UInt16 => "unsigned short"@,
        PrimitiveTy::Int32 => "long"@,
        PrimitiveTy::UInt32 => "unsigned long"@,
        PrimitiveTy::Int64 => "long long"@,
        PrimitiveTy::UInt64 => "unsigned long long"@,
        PrimitiveTy::Float32 => "float"@,
        PrimitiveTy::Float64 => "double"@,
        PrimitiveTy::Float128 => "long double"@,
    }
}

/// Size in bytes of a primitive type.
pub open spec fn spec_prim_size(p: PrimitiveTy) -> nat {
    match p {
        PrimitiveTy::Void => 0,
        PrimitiveTy::Bool | PrimitiveTy::Char | PrimitiveTy::Int8 | PrimitiveTy::UInt8 => 1,
        PrimitiveTy::WChar | PrimitiveTy::Int16 | PrimitiveTy::UInt16 => 2,
        PrimitiveTy::Int32 | PrimitiveTy::UInt32 | PrimitiveTy::Float32 => 4,
        PrimitiveTy::Int64 | PrimitiveTy::UInt64 | PrimitiveTy::Float64 => 8,
        PrimitiveTy::Float128 => 16,
    }
}

impl PrimitiveTy {
    pub fn name(&self) -> (r: &'static str)
        ensures
            r@ == spec_prim_name(*self),
    {
        match self {
            PrimitiveTy::Void => "void",
            PrimitiveTy::Bool => "boolean",
            PrimitiveTy::Char => "char",
            PrimitiveTy::WChar => "wchar",
            PrimitiveTy::Int8 => "int8",
            PrimitiveTy::UInt8 => "uint8",
            PrimitiveTy::Int16 => "int16",
            PrimitiveTy::UInt16 => "uint16",
            PrimitiveTy::Int32 => "int32",
            PrimitiveTy::UInt32 => "uint32",
            PrimitiveTy::Int64 => "int64",
            PrimitiveTy::UInt64 => "uint64",
            PrimitiveTy::Float32 => "float",
            PrimitiveTy::Float64 => "double",
            PrimitiveTy::Float128 => "long double",
        }
    }

    pub fn legacy_name(&self) -> (r: &'static str)
        ensures
            r@ == spec_prim_legacy_name(*self),
    {
        match self {
            PrimitiveTy::Void => "void",
            PrimitiveTy::Bool => "boolean",
            PrimitiveTy::Char => "char",
            PrimitiveTy::WChar => "wchar",
            PrimitiveTy::Int8 => "int8",
            PrimitiveTy::UInt8 => "octet",
            PrimitiveTy::Int16 => "short",
            PrimitiveTy::UInt16 => "unsigned short",
            PrimitiveTy::Int32 => "long",
            PrimitiveTy::UInt32 => "unsigned long",
            PrimitiveTy::Int64 => "long long",
            PrimitiveTy::UInt64 => "unsigned long long",
            PrimitiveTy::Float32 => "float",
            PrimitiveTy::Float64 => "double",
            PrimitiveTy::Float128 => "long double",
        }
    }

    pub fn size(&self) -> (r: usize)
        ensures
            r == spec_prim_size(*self),
    {
        match self {
            PrimitiveTy::Void => 0,
            PrimitiveTy::Bool | PrimitiveTy::Char | PrimitiveTy::Int8 | PrimitiveTy::UInt8 => 1,
            PrimitiveTy::WChar | PrimitiveTy::Int16 | PrimitiveTy::UInt16 => 2,
            PrimitiveTy::Int32 | PrimitiveTy::UInt32 | PrimitiveTy::Float32 => 4,
            PrimitiveTy::Int64 | PrimitiveTy::UInt64 | PrimitiveTy::Float64 => 8,
            PrimitiveTy::Float128 => 16,
        }
    }
}


/// A position range in the source text.
#[derive(Copy, Clone, Debug, PartialEq, Eq, Structural, Default)]
pub struct Span {
    pub start: usize,
    pub end: usize,
}

/// A name together with where it was written.
#[derive(Clone, Debug, PartialEq)]
pub struct Ident {
    pub name: String,
    pub span: Span,
}

/// Index of a definition in the context's arena.
pub type DefId = usize;

/// Direction of an operation parameter.
#[derive(Copy, Clone, Debug, PartialEq, Eq, Structural)]
pub enum ParamKind {
    In,
    Out,
    Inout,
}

/// Kinds of forward declarations.
#[derive(Copy, Clone, Debug, PartialEq, Eq, Structural, Hash)]
pub enum Decl {
    Struct,
    Union,
    Native,
    Interface,
    Valuetype,
}

/// Bit set of definition properties.
#[derive(Copy, Clone, Debug, PartialEq, Eq, Structural)]
pub struct DefFlags {
    pub bits: u32,
}

/// Indicates whether the type is recursive.
pub const IS_CIRCULAR: u32 = 1;
/// Indicates whether the type is trivial, i.e. consists only of primitive
/// types and arrays thereof.
pub const IS_TRIVIAL: u32 = 2;
/// Marker for built-in types.
pub const IS_BUILTIN: u32 = 4;
/// Marker for synthesized types.
pub const IS_SYNTHESIZED: u32 = 8;
/// Marker for incomplete types.
pub const IS_INCOMPLETE: u32 = 16;
/// Marker for non-suppressed types.
pub const IS_EMIT: u32 = 32;
/// An enumerator or bitmask position explicitly set.
pub const IS_ENUMERATED: u32 = 64;
/// Indicates that another type inherits from this type.
pub const HAS_CHILDREN: u32 = 128;
/// Indicates whether the type consists of members that form a well-ordered set.
pub const TOTAL_ORDER: u32 = 256;
/// Indicates whether the type comes from a file that was not named on the
/// command line.
pub const IS_INCLUDED: u32 = 512;

impl DefFlags {
    /// Whether every flag of `other` is set in `self`.
    pub fn contains(&self, other: DefFlags) -> (r: bool)
        ensures
            r == (self.bits & other.bits == other.bits),
    {
        self.bits & other.bits == other.bits
    }
}

impl Default for DefFlags {
    fn default() -> (r: Self)
        ensures
            r.bits == IS_EMIT,
    {
        DefFlags { bits: IS_EMIT }
    }
}

#[derive(Debug)]
pub struct Def {
    /// The ID of this definition.
    pub id: DefId,
    /// Name of the definition.
    pub ident: Ident,
    /// Parent definition, if any. None for top-level definitions.
    pub parent: Option<DefId>,
    /// Annotations attached to the definition.
    pub annotations: Vec<Ann>,
    /// Span of the whole definition of the type.
    pub span: Span,
    /// Variant-specific data.
    pub kind: DefKind,
    pub flags: DefFlags,
}

#[derive(Debug)]
pub enum DefKind {
    Annotation(AnnotationTy),
    Module(ModuleTy),
    Struct(StructTy),
    Except(ExceptTy),
    Union(UnionTy),
    Enum(EnumTy),
    Const(ConstTy),
    Bitmask(BitmaskTy),
    Bitset(BitsetTy),
    Alias(AliasTy),
    Interface(InterfaceTy),
    Valuetype(ValueTy),
    Decl(Decl),
}

/// Human-readable name of a definition kind.
pub open spec fn spec_kind_name(k: DefKind) -> Seq<char> {
    match k {
        DefKind::Annotation(_) => "annotation"@,
        DefKind::Module(_) => "module"@,
        DefKind::Struct(_) => "struct"@,
        DefKind::Except(_) => "exception"@,
        DefKind::Union(_) => "union"@,
        DefKind::Enum(_) => "enum"@,
        DefKind::Const(_) => "const"@,
        DefKind::Bitmask(_) => "bitmask"@,
        DefKind::Bitset(_) => "bitset"@,
        DefKind::Alias(_) => "typedef"@,
        DefKind::Interface(_) => "interface"@,
        DefKind::Valuetype(_) => "valuetype"@,
        DefKind::Decl(d) => match d {
            Decl::Struct => "struct forward declaration"@,
            Decl::Union => "union forward declaration"@,
            Decl::Native => "native"@,
            Decl::Interface => "interface forward declaration"@,
            Decl::Valuetype => "valuetype forward declaration"@,
        },
    }
}

impl DefKind {
    /// Returns a human-readable name for the definition kind.
    pub fn kind_name(&self) -> (r: &'static str)
        ensures
            r@ == spec_kind_name(*self),
    {
        match self {
            DefKind::Annotation(_) => "annotation",
            DefKind::Module(_) => "module",
            DefKind::Struct(_) => "struct",
            DefKind::Except(_) => "exception",
            DefKind::Union(_) => "union",
            DefKind::Enum(_) => "enum",
            DefKind::Const(_) => "const",
            DefKind::Bitmask(_) => "bitmask",
            DefKind::Bitset(_) => "bitset",
            DefKind::Alias(_) => "typedef",
            DefKind::Interface(_) => "interface",
            DefKind::Valuetype(_) => "valuetype",
            DefKind::Decl(decl) => match decl {
                Decl::Struct => "struct forward declaration",
                Decl::Union => "union forward declaration",
                Decl::Native => "native",
                Decl::Interface => "interface forward declaration",
                Decl::Valuetype => "valuetype forward declaration",
            },
        }
    }
}

#[derive(Debug, PartialEq)]
pub struct Ty {
    pub span: Span,
    pub kind: TyKind,
}

#[derive(Debug, PartialEq)]
pub enum TyKind {
    /// The `any` type.
    Any,
    /// Fixed<> types.
    Fixed,
    /// A primitive built-in type, such as `uint8` or `long long`.
    Primitive(PrimitiveTy),
    /// An array of type `ty` with bounds `len`.
    Array { ty: Box<Ty>, len: usize, len_span: Span },
    Sequence { ty: Box<Ty>, bound: Option<usize>, bound_span: Option<Span> },
    String { wide: bool, bound: Option<usize>, bound_span: Option<Span> },
    Mapping { key: Box<Ty>, elem: Box<Ty>, bound: Option<usize>, bound_span: Option<Span> },
    /// The null type.
    Null,
    /// An algebraic data type.
    Adt(DefId),
}

/// A constant value. Floating-point literals are carried as their IEEE-754
/// bit patterns.
#[derive(Debug, PartialEq)]
pub enum Numeric {
    Null,
    Bool(bool),
    Char(char),
    WChar(char),
    Int8(i8),
    UInt8(u8),
    Int16(i16),
    UInt16(u16),
    Int32(i32),
    UInt32(u32),
    Int64(i64),
    UInt64(u64),
    /// An f32 literal, by its bit pattern.
    Float(u32),
    /// An f64 literal, by its bit pattern.
    Double(u64),
    String(String),
    WString(String),
    /// Value that points to another constant.
    Const(DefId),
    Array { ty: Ty, values: Vec<Numeric> },
    Sequence { ty: Ty, values: Vec<Numeric> },
    Mapping { key: Ty, value: Ty, entries: Vec<(Numeric, Numeric)> },
    Struct { ty: DefId, fields: Vec<Numeric> },
    Union { ty: DefId, discriminant: Box<Numeric>, field_index: usize, value: Box<Numeric> },
}

#[derive(Debug)]
pub struct AnnotationTy {
    pub params: Vec<AnnParam>,
    pub types: Vec<DefId>,
}

#[derive(Debug)]
pub struct AnnParam {
    pub ident: Ident,
    pub ty: Ty,
    pub default: Option<Numeric>,
    pub annotations: Vec<Ann>,
}

#[derive(Debug)]
pub struct ModuleTy {
    pub definitions: Vec<DefId>,
}

#[derive(Debug)]
pub struct StructTy {
    pub parent: Option<Spanned>,
    pub members: Vec<Member>,
}

#[derive(Debug)]
pub struct Member {
    pub ident: Ident,
    pub ty: Ty,
    pub annotations: Vec<Ann>,
}

#[derive(Debug)]
pub struct ExceptTy {
    pub members: Vec<Member>,
}

#[derive(Debug)]
pub struct Disc {
    pub annotations: Vec<Ann>,
    pub ty: Ty,
}

#[derive(Debug)]
pub struct UnionTy {
    pub disc: Disc,
    pub variants: Vec<Variant>,
}

#[derive(Debug)]
pub struct Label {
    pub value: Numeric,
    pub span: Span,
}

#[derive(Debug)]
pub struct Variant {
    pub annotations: Vec<Ann>,
    pub ident: Ident,
    pub ty: Ty,
    pub labels: Vec<Label>,
    pub is_default: bool,
}

#[derive(Debug)]
pub struct EnumTy {
    pub fields: Vec<DefId>,
    pub ty: PrimitiveTy,
}

#[derive(Debug)]
pub struct ConstTy {
    pub value: Numeric,
    pub ty: Ty,
}

#[derive(Debug)]
pub struct BitmaskTy {
    pub flags: Vec<DefId>,
    pub ty: PrimitiveTy,
}

#[derive(Debug)]
pub struct BitsetTy {
    pub parent: Option<Spanned>,
    pub fields: Vec<BitsetField>,
}

#[derive(Debug)]
pub struct BitsetField {
    pub ident: Ident,
    pub size: usize,
    pub ty: Ty,
    pub annotations: Vec<Ann>,
}

#[derive(Debug)]
pub struct InterfaceTy {
    pub parents: Vec<Spanned>,
    pub prototypes: Vec<ProtoTy>,
    pub attributes: Vec<Attribute>,
    pub definitions: Vec<DefId>,
    pub is_local: bool,
}

#[derive(Debug)]
pub struct ValueTy {
    pub parent: Option<Spanned>,
    pub supports: Option<Spanned>,
    pub prototypes: Vec<ProtoTy>,
    pub attributes: Vec<Attribute>,
    pub members: Vec<Member>,
    pub definitions: Vec<DefId>,
}

#[derive(Debug)]
pub struct ProtoTy {
    pub ident: Ident,
    pub ty: Ty,
    pub params: Vec<Parameter>,
    pub raises: Vec<Spanned>,
    pub annotations: Vec<Ann>,
}

#[derive(Debug)]
pub struct Parameter {
    pub ident: Ident,
    pub ty: Ty,
    pub kind: ParamKind,
}

#[derive(Debug)]
pub struct Attribute {
    pub ident: Ident,
    pub ty: Ty,
    pub is_readonly: bool,
    pub getraises: Vec<Spanned>,
    pub setraises: Vec<Spanned>,
    pub annotations: Vec<Ann>,
}

/// A reference to a definition together with where it was written.
#[derive(Copy, Clone, Debug, PartialEq, Eq, Structural)]
pub struct Spanned {
    pub def_id: DefId,
    pub span: Span,
}

#[derive(Debug)]
pub struct AliasTy {
    pub ty: Ty,
}

/// An applied annotation.
#[derive(Debug)]
pub struct Ann {
    /// The annotation name.
    pub ident: Ident,
    /// Reference to the @annotation definition.
    pub def_id: Option<DefId>,
    /// Arguments passed to the annotation.
    pub args: Vec<AnnArg>,
}

#[derive(Debug)]
pub struct AnnArg {
    /// Argument name.
    pub ident: Ident,
    /// The argument value.
    pub value: Numeric,
    /// The resolved type of the parameter.
    pub ty: Option<Ty>,
}


/// A copy of a type, equal to the original.
pub fn clone_ty(t: &Ty) -> (r: Ty)
    ensures
        r == *t,
    decreases t,
{
    let kind = match &t.kind {
        TyKind::Any => TyKind::Any,
        TyKind::Fixed => TyKind::Fixed,
        TyKind::Primitive(p) => TyKind::Primitive(*p),
        TyKind::Array { ty, len, len_span } => TyKind::Array {
            ty: Box::new(clone_ty(ty)),
            len: *len,
            len_span: *len_span,
        },
        TyKind::Sequence { ty, bound, bound_span } => TyKind::Sequence {
            ty: Box::new(clone_ty(ty)),
            bound: *bound,
            bound_span: *bound_span,
        },
        TyKind::String { wide, bound, bound_span } => TyKind::String {
            wide: *wide,
            bound: *bound,
            bound_span: *bound_span,
        },
        TyKind::Mapping { key, elem, bound, bound_span } => TyKind::Mapping {
            key: Box::new(clone_ty(key)),
            elem: Box::new(clone_ty(elem)),
            bound: *bound,
            bound_span: *bound_span,
        },
        TyKind::Null => TyKind::Null,
        TyKind::Adt(id) => TyKind::Adt(*id),
    };
    Ty { span: t.span, kind }
}

} // verus!

verus! {

/// Two constant values are the same: equal scalars, or aggregates of the
/// same type whose elements are the same.
pub open spec fn spec_numeric_eqv(a: Numeric, b: Numeric) -> bool
    decreases a,
{
    match a {
        Numeric::Array { ty, values } => b matches Numeric::Array { ty: t2, values: v2 } && ty == t2
            && spec_values_eqv(values@, v2@),
        Numeric::Sequence { ty, values } => b matches Numeric::Sequence { ty: t2, values: v2 } && ty == t2
            && spec_values_eqv(values@, v2@),
        Numeric::Mapping { key, value, entries } => b matches Numeric::Mapping { key: k2, value: v2, entries: e2 }
            && key == k2 && value == v2 && spec_entries_eqv(entries@, e2@),
        Numeric::Struct { ty, fields } => b matches Numeric::Struct { ty: t2, fields: f2 } && ty == t2
            && spec_values_eqv(fields@, f2@),
        Numeric::Union { ty, discriminant, field_index, value } => b matches Numeric::Union {
            ty: t2,
            discriminant: d2,
            field_index: i2,
            value: v2,
        } && ty == t2 && field_index == i2 && spec_numeric_eqv(*discriminant, *d2) && spec_numeric_eqv(*value, *v2),
        _ => a == b,
    }
}

/// Two lists of values are the same element by element.
pub open spec fn spec_values_eqv(s: Seq<Numeric>, t: Seq<Numeric>) -> bool
    decreases s,
{
    s.len() == t.len() && (s.len() == 0 || (spec_values_eqv(s.drop_last(), t.drop_last()) && spec_numeric_eqv(
        s.last(),
        t.last(),
    )))
}

/// Two lists of entries are the same entry by entry.
pub open spec fn spec_entries_eqv(s: Seq<(Numeric, Numeric)>, t: Seq<(Numeric, Numeric)>) -> bool
    decreases s,
{
    s.len() == t.len() && (s.len() == 0 || (spec_entries_eqv(s.drop_last(), t.drop_last()) && spec_numeric_eqv(
        s.last().0,
        t.last().0,
    ) && spec_numeric_eqv(s.last().1, t.last().1)))
}

/// A copy of a constant value.
#[verifier::loop_isolation(false)]
pub fn clone_numeric(n: &Numeric) -> (r: Numeric)
    ensures
        spec_numeric_eqv(*n, r),
    decreases n, 1nat,
{
    match n {
        Numeric::Null => Numeric::Null,
        Numeric::Bool(b) => Numeric::Bool(*b),
        Numeric::Char(c) => Numeric::Char(*c),
        Numeric::WChar(c) => Numeric::WChar(*c),
        Numeric::Int8(v) => Numeric::Int8(*v),
        Numeric::UInt8(v) => Numeric::UInt8(*v),
        Numeric::Int16(v) => Numeric::Int16(*v),
        Numeric::UInt16(v) => Numeric::UInt16(*v),
        Numeric::Int32(v) => Numeric::Int32(*v),
        Numeric::UInt32(v) => Numeric::UInt32(*v),
        Numeric::Int64(v) => Numeric::Int64(*v),
        Numeric::UInt64(v) => Numeric::UInt64(*v),
        Numeric::Float(v) => Numeric::Float(*v),
        Numeric::Double(v) => Numeric::Double(*v),
        Numeric::String(s) => Numeric::String(s.clone()),
        Numeric::WString(s) => Numeric::WString(s.clone()),
        Numeric::Const(id) => Numeric::Const(*id),
        Numeric::Array { ty, values } => Numeric::Array { ty: clone_ty(ty), values: clone_values(n, values) },
        Numeric::Sequence { ty, values } => Numeric::Sequence { ty: clone_ty(ty), values: clone_values(n, values) },
        Numeric::Mapping { key, value, entries } => {
            let mut out: Vec<(Numeric, Numeric)> = Vec::new();
            let mut i: usize = 0;
            while i < entries.len()
                invariant
                    0 <= i <= entries@.len(),
                    spec_entries_eqv(entries@.subrange(0, i as int), out@),
                decreases entries@.len() - i,
            {
                proof {
                    assert(decreases_to!(*n => entries@[i as int].0));
                    assert(decreases_to!(*n => entries@[i as int].1));
                }
                let k = clone_numeric(&entries[i].0);
                let v = clone_numeric(&entries[i].1);
                let ghost before = out@;
                out.push((k, v));
                proof {
                    assert(entries@.subrange(0, i + 1).drop_last() =~= entries@.subrange(0, i as int));
                    assert(out@.drop_last() =~= before);
                }
                i += 1;
            }
            assert(entries@.subrange(0, i as int) =~= entries@);
            Numeric::Mapping { key: clone_ty(key), value: clone_ty(value), entries: out }
        },
        Numeric::Struct { ty, fields } => Numeric::Struct { ty: *ty, fields: clone_values(n, fields) },
        Numeric::Union { ty, discriminant, field_index, value } => Numeric::Union {
            ty: *ty,
            discriminant: Box::new(clone_numeric(discriminant)),
            field_index: *field_index,
            value: Box::new(clone_numeric(value)),
        },
    }
}

/// A copy of the values that are part of `n`.
fn clone_values(n: &Numeric, values: &Vec<Numeric>) -> (r: Vec<Numeric>)
    requires
        decreases_to!(*n => values@),
    ensures
        spec_values_eqv(values@, r@),
    decreases n, 0nat,
{
    let mut out: Vec<Numeric> = Vec::new();
    let mut i: usize = 0;
    while i < values.len()
        invariant
            0 <= i <= values@.len(),
            decreases_to!(*n => values@),
            spec_values_eqv(values@.subrange(0, i as int), out@),
        decreases values@.len() - i,
    {
        proof {
            assert(decreases_to!(values@ => values@[i as int]));
        }
        let v = clone_numeric(&values[i]);
        let ghost before = out@;
        out.push(v);
        proof {
            assert(values@.subrange(0, i + 1).drop_last() =~= values@.subrange(0, i as int));
            assert(out@.drop_last() =~= before);
        }
        i += 1;
    }
    assert(values@.subrange(0, i as int) =~= values@);
    out
}

} // verus!

verus! {

/// A constant value as contracts see it: the elements of arrays,
/// sequences, maps and structs as sequences of views.
pub enum ConstView {
    /// A value without elements: null, a boolean, character, integer,
    /// floating-point bit pattern, string or reference to a constant.
    Atom(Numeric),
    Array { ty: Ty, values: Seq<ConstView> },
    Sequence { ty: Ty, values: Seq<ConstView> },
    Mapping { key: Ty, value: Ty, entries: Seq<(ConstView, ConstView)> },
    Struct { ty: DefId, fields: Seq<ConstView> },
    Union { ty: DefId, discriminant: Box<ConstView>, field_index: usize, value: Box<ConstView> },
}

/// The view of a constant value.
pub open spec fn spec_const_view(n: Numeric) -> ConstView
    decreases n,
{
    match n {
        Numeric::Array { ty, values } => ConstView::Array { ty, values: spec_const_views(values@) },
        Numeric::Sequence { ty, values } => ConstView::Sequence { ty, values: spec_const_views(values@) },
        Numeric::Mapping { key, value, entries } => ConstView::Mapping {
            key,
            value,
            entries: spec_entry_views(entries@),
        },
        Numeric::Struct { ty, fields } => ConstView::Struct { ty, fields: spec_const_views(fields@) },
        Numeric::Union { ty, discriminant, field_index, value } => ConstView::Union {
            ty,
            discriminant: Box::new(spec_const_view(*discriminant)),
            field_index,
            value: Box::new(spec_const_view(*value)),
        },
        _ => ConstView::Atom(n),
    }
}

/// The views of a list of values, in order.
pub open spec fn spec_const_views(s: Seq<Numeric>) -> Seq<ConstView>
    decreases s,
{
    if s.len() == 0 {
        Seq::empty()
    } else {
        spec_const_views(s.drop_last()).push(spec_const_view(s.last()))
    }
}

/// The views of a list of map entries, in order.
pub open spec fn spec_entry_views(s: Seq<(Numeric, Numeric)>) -> Seq<(ConstView, ConstView)>
    decreases s,
{
    if s.len() == 0 {
        Seq::empty()
    } else {
        spec_entry_views(s.drop_last()).push((spec_const_view(s.last().0), spec_const_view(s.last().1)))
    }
}

/// The view of an optional constant value.
pub open spec fn spec_opt_view(o: Option<Numeric>) -> Option<ConstView> {
    match o {
        Some(n) => Some(spec_const_view(n)),
        None => None,
    }
}

/// Appending a value appends its view.
pub proof fn lemma_const_views_push(s: Seq<Numeric>, n: Numeric)
    ensures
        spec_const_views(s.push(n)) == spec_const_views(s).push(spec_const_view(n)),
{
    assert(s.push(n).drop_last() =~= s);
}

/// Values that are the same have the same view.
pub proof fn lemma_eqv_same_view(a: Numeric, b: Numeric)
    requires
        spec_numeric_eqv(a, b),
    ensures
        spec_const_view(a) == spec_const_view(b),
    decreases a,
{
    match (a, b) {
        (Numeric::Array { values, .. }, Numeric::Array { values: v2, .. }) => lemma_values_eqv_same_views(values@, v2@),
        (Numeric::Sequence { values, .. }, Numeric::Sequence { values: v2, .. }) => lemma_values_eqv_same_views(
            values@,
            v2@,
        ),
        (Numeric::Mapping { entries, .. }, Numeric::Mapping { entries: e2, .. }) => lemma_entries_eqv_same_views(
            entries@,
            e2@,
        ),
        (Numeric::Struct { fields, .. }, Numeric::Struct { fields: f2, .. }) => lemma_values_eqv_same_views(fields@, f2@),
        (Numeric::Union { discriminant, value, .. }, Numeric::Union { discriminant: d2, value: v2, .. }) => {
            lemma_eqv_same_view(*discriminant, *d2);
            lemma_eqv_same_view(*value, *v2);
        },
        _ => {},
    }
}

proof fn lemma_values_eqv_same_views(s: Seq<Numeric>, t: Seq<Numeric>)
    requires
        spec_values_eqv(s, t),
    ensures
        spec_const_views(s) == spec_const_views(t),
    decreases s,
{
    if s.len() > 0 {
        lemma_values_eqv_same_views(s.drop_last(), t.drop_last());
        lemma_eqv_same_view(s.last(), t.last());
    }
}

proof fn lemma_entries_eqv_same_views(s: Seq<(Numeric, Numeric)>, t: Seq<(Numeric, Numeric)>)
    requires
        spec_entries_eqv(s, t),
    ensures
        spec_entry_views(s) == spec_entry_views(t),
    decreases s,
{
    if s.len() > 0 {
        lemma_entries_eqv_same_views(s.drop_last(), t.drop_last());
        lemma_eqv_same_view(s.last().0, t.last().0);
        lemma_eqv_same_view(s.last().1, t.last().1);
    }
}

/// Appending an entry appends its view.
pub proof fn lemma_entry_views_push(s: Seq<(Numeric, Numeric)>, e: (Numeric, Numeric))
    ensures
        spec_entry_views(s.push(e)) == spec_entry_views(s).push((spec_const_view(e.0), spec_const_view(e.1))),
{
    assert(s.push(e).drop_last() =~= s);
}

impl View for Numeric {
    type V = ConstView;

    open spec fn view(&self) -> ConstView {
        spec_const_view(*self)
    }
}

} // verus!
