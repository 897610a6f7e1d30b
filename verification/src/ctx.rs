//! The definition store: owns all definitions and resolves typedef chains,
//! constant references and type names.

use vstd::prelude::*;
use crate::hir::{Def, DefId, DefKind, Numeric, Ty, TyKind, clone_ty, spec_prim_name};
use crate::text::{decimal_i64, decimal_u64, owned, spec_decimal, spec_signed_decimal};

verus! {

/// The next definition along a typedef (or typed constant) chain.
pub open spec fn spec_alias_step(defs: Seq<Def>, id: DefId) -> Option<DefId> {
    match defs[id as int].kind {
        DefKind::Alias(a) => match a.ty.kind {
            TyKind::Adt(n) => Some(n),
            _ => None,
        },
        DefKind::Const(c) => match c.ty.kind {
            TyKind::Adt(n) => Some(n),
            _ => None,
        },
        _ => None,
    }
}

/// The end of the typedef chain starting at `id`, when it is reached within
/// `fuel` steps through existing definitions.
pub open spec fn spec_base_id_within(defs: Seq<Def>, id: DefId, fuel: nat) -> Option<DefId>
    decreases fuel,
{
    if id >= defs.len() {
        None
    } else {
        match spec_alias_step(defs, id) {
            None => Some(id),
            Some(n) => if fuel == 0 {
                None
            } else {
                spec_base_id_within(defs, n, (fuel - 1) as nat)
            },
        }
    }
}

/// The typedef chain starting at `id` ends, through existing definitions.
pub open spec fn spec_resolves(defs: Seq<Def>, id: DefId) -> bool {
    exists|f: nat| #[trigger] spec_base_id_within(defs, id, f) is Some
}

/// The underlying definition of `id`, past all intermediate typedefs.
pub open spec fn spec_base_id(defs: Seq<Def>, id: DefId) -> DefId {
    spec_base_id_within(defs, id, choose|f: nat| #[trigger] spec_base_id_within(defs, id, f) is Some)->Some_0
}

/// The end of a chain does not depend on how much fuel reached it.
pub proof fn lemma_base_id_fuel(defs: Seq<Def>, id: DefId, f1: nat, f2: nat)
    requires
        spec_base_id_within(defs, id, f1) is Some,
        spec_base_id_within(defs, id, f2) is Some,
    ensures
        spec_base_id_within(defs, id, f1) == spec_base_id_within(defs, id, f2),
    decreases f1,
{
    if let Some(n) = spec_alias_step(defs, id) {
        lemma_base_id_fuel(defs, n, (f1 - 1) as nat, (f2 - 1) as nat);
    }
}

/// The underlying type of `id`: the aliased non-ADT type at the end of a
/// typedef chain, or the ADT that ends it.
pub open spec fn spec_base_type(defs: Seq<Def>, id: DefId) -> Ty {
    let b = spec_base_id(defs, id);
    match defs[b as int].kind {
        DefKind::Alias(a) => a.ty,
        DefKind::Const(c) => c.ty,
        _ => Ty { kind: TyKind::Adt(b), span: defs[b as int].span },
    }
}

/// Resolving a definition twice gives the same result as resolving it once.
pub proof fn lemma_base_id_idempotent(defs: Seq<Def>, id: DefId)
    requires
        spec_resolves(defs, id),
    ensures
        spec_resolves(defs, spec_base_id(defs, id)),
        spec_base_id(defs, spec_base_id(defs, id)) == spec_base_id(defs, id),
{
    let f0 = choose|f: nat| #[trigger] spec_base_id_within(defs, id, f) is Some;
    lemma_base_id_end(defs, id, f0);
    let b = spec_base_id(defs, id);
    assert(spec_base_id_within(defs, b, 0) == Some(b));
    let f1 = choose|f: nat| #[trigger] spec_base_id_within(defs, b, f) is Some;
    lemma_base_id_fuel(defs, b, 0, f1);
}

/// The end of a chain is an existing definition that is not a typedef.
pub proof fn lemma_base_id_end(defs: Seq<Def>, id: DefId, f: nat)
    requires
        spec_base_id_within(defs, id, f) is Some,
    ensures
        spec_base_id_within(defs, id, f)->Some_0 < defs.len(),
        spec_alias_step(defs, spec_base_id_within(defs, id, f)->Some_0) is None,
    decreases f,
{
    if let Some(n) = spec_alias_step(defs, id) {
        lemma_base_id_end(defs, n, (f - 1) as nat);
    }
}

/// The definition referenced by a type, looking through arrays, sequences
/// and map elements.
pub open spec fn spec_def_of(ty: Ty) -> Option<DefId>
    decreases ty,
{
    match ty.kind {
        TyKind::Array { ty, .. } => spec_def_of(*ty),
        TyKind::Sequence { ty, .. } => spec_def_of(*ty),
        TyKind::Mapping { elem, .. } => spec_def_of(*elem),
        TyKind::Adt(id) => Some(id),
        _ => None,
    }
}

/// The unsigned value of a constant, following constant references through
/// at most `fuel` steps: `0` for a negative integer and for a value that is
/// no integer; `None` when the fuel runs out or a reference does not exist.
pub open spec fn spec_unsigned_within(defs: Seq<Def>, n: Numeric, fuel: nat) -> Option<u64>
    decreases fuel,
{
    match n {
        Numeric::UInt8(v) => Some(v as u64),
        Numeric::UInt16(v) => Some(v as u64),
        Numeric::UInt32(v) => Some(v as u64),
        Numeric::UInt64(v) => Some(v),
        Numeric::Int8(v) => Some(spec_unsigned_of(v as int)),
        Numeric::Int16(v) => Some(spec_unsigned_of(v as int)),
        Numeric::Int32(v) => Some(spec_unsigned_of(v as int)),
        Numeric::Int64(v) => Some(spec_unsigned_of(v as int)),
        Numeric::Const(id) => if id >= defs.len() {
            None
        } else {
            match defs[id as int].kind {
                DefKind::Const(c) => if fuel == 0 {
                    None
                } else {
                    spec_unsigned_within(defs, c.value, (fuel - 1) as nat)
                },
                _ => Some(0),
            }
        },
        _ => Some(0),
    }
}

/// A signed payload as an unsigned value: itself when not negative, else `0`.
pub open spec fn spec_unsigned_of(v: int) -> u64 {
    if v < 0 {
        0
    } else {
        v as u64
    }
}

/// The signed value of a constant, following constant references through
/// at most `fuel` steps: signed payloads as they are, unsigned payloads
/// read as 64-bit two's complement, `0` for a value that is no integer;
/// `None` when the fuel runs out or a reference does not exist.
pub open spec fn spec_integer_within(defs: Seq<Def>, n: Numeric, fuel: nat) -> Option<i64>
    decreases fuel,
{
    match n {
        Numeric::UInt8(v) => Some(v as i64),
        Numeric::UInt16(v) => Some(v as i64),
        Numeric::UInt32(v) => Some(v as i64),
        Numeric::UInt64(v) => Some(spec_i64_of(v)),
        Numeric::Int8(v) => Some(v as i64),
        Numeric::Int16(v) => Some(v as i64),
        Numeric::Int32(v) => Some(v as i64),
        Numeric::Int64(v) => Some(v),
        Numeric::Const(id) => if id >= defs.len() {
            None
        } else {
            match defs[id as int].kind {
                DefKind::Const(c) => if fuel == 0 {
                    None
                } else {
                    spec_integer_within(defs, c.value, (fuel - 1) as nat)
                },
                _ => Some(0),
            }
        },
        _ => Some(0),
    }
}

/// The signed reading of a 64-bit pattern.
pub open spec fn spec_i64_of(v: u64) -> i64 {
    if v > i64::MAX { (v - 0x1_0000_0000_0000_0000) as i64 } else { v as i64 }
}

/// Both readings of a constant resolve with the same fuel.
pub proof fn lemma_integer_fuel(defs: Seq<Def>, n: Numeric, f: nat)
    ensures
        spec_unsigned_within(defs, n, f) is Some <==> spec_integer_within(defs, n, f) is Some,
    decreases f,
{
    if let Numeric::Const(id) = n {
        if id < defs.len() {
            if let DefKind::Const(c) = defs[id as int].kind {
                if f > 0 {
                    lemma_integer_fuel(defs, c.value, (f - 1) as nat);
                }
            }
        }
    }
}

/// The signed reading of a constant.
pub open spec fn spec_integer_value(defs: Seq<Def>, n: Numeric) -> i64 {
    spec_integer_within(defs, n, choose|f: nat| #[trigger] spec_integer_within(defs, n, f) is Some)->Some_0
}

pub proof fn lemma_integer_value_fuel(defs: Seq<Def>, n: Numeric, f1: nat, f2: nat)
    requires
        spec_integer_within(defs, n, f1) is Some,
        spec_integer_within(defs, n, f2) is Some,
    ensures
        spec_integer_within(defs, n, f1) == spec_integer_within(defs, n, f2),
    decreases f1,
{
    if let Numeric::Const(id) = n {
        if let DefKind::Const(c) = defs[id as int].kind {
            lemma_integer_value_fuel(defs, c.value, (f1 - 1) as nat, (f2 - 1) as nat);
        }
    }
}

/// Every constant reference reached from `n` exists and the chain ends.
pub open spec fn spec_value_resolves(defs: Seq<Def>, n: Numeric) -> bool {
    exists|f: nat| #[trigger] spec_unsigned_within(defs, n, f) is Some
}

/// The unsigned reading of a constant.
pub open spec fn spec_unsigned_value(defs: Seq<Def>, n: Numeric) -> u64 {
    spec_unsigned_within(defs, n, choose|f: nat| #[trigger] spec_unsigned_within(defs, n, f) is Some)->Some_0
}

pub proof fn lemma_unsigned_fuel(defs: Seq<Def>, n: Numeric, f1: nat, f2: nat)
    requires
        spec_unsigned_within(defs, n, f1) is Some,
        spec_unsigned_within(defs, n, f2) is Some,
    ensures
        spec_unsigned_within(defs, n, f1) == spec_unsigned_within(defs, n, f2),
    decreases f1,
{
    if let Numeric::Const(id) = n {
        if let DefKind::Const(c) = defs[id as int].kind {
            lemma_unsigned_fuel(defs, c.value, (f1 - 1) as nat, (f2 - 1) as nat);
        }
    }
}

/// The name a diagnostic uses for a type.
pub open spec fn spec_ty_name(defs: Seq<Def>, ty: Ty) -> Seq<char> {
    match ty.kind {
        TyKind::Primitive(p) => spec_prim_name(p),
        TyKind::String { .. } => "string"@,
        TyKind::Sequence { .. } => "sequence"@,
        TyKind::Array { .. } => "array"@,
        TyKind::Mapping { .. } => "map"@,
        TyKind::Any => "any"@,
        TyKind::Fixed => "fixed"@,
        TyKind::Null => "null"@,
        TyKind::Adt(id) => defs[id as int].ident.name@,
    }
}

/// The `::`-separated path of names from the outermost enclosing definition
/// down to `id`, when the parent chain ends within `fuel` steps.
pub open spec fn spec_qualified_within(defs: Seq<Def>, id: DefId, fuel: nat) -> Option<Seq<char>>
    decreases fuel,
{
    if id >= defs.len() {
        None
    } else {
        match defs[id as int].parent {
            None => Some(defs[id as int].ident.name@),
            Some(p) => if fuel == 0 {
                None
            } else {
                match spec_qualified_within(defs, p, (fuel - 1) as nat) {
                    None => None,
                    Some(q) => Some(q + "::"@ + defs[id as int].ident.name@),
                }
            },
        }
    }
}

/// The parent chain of `id` ends, through existing definitions.
pub open spec fn spec_parents_resolve(defs: Seq<Def>, id: DefId) -> bool {
    exists|f: nat| #[trigger] spec_qualified_within(defs, id, f) is Some
}

/// The fully qualified name of a definition.
pub open spec fn spec_qualified_name(defs: Seq<Def>, id: DefId) -> Seq<char> {
    spec_qualified_within(defs, id, choose|f: nat| #[trigger] spec_qualified_within(defs, id, f) is Some)->Some_0
}

pub struct Context {
    pub definitions: Vec<Def>,
}

impl Context {
    /// Creates a new, empty context.
    pub fn new() -> (c: Self)
        ensures
            c.definitions@.len() == 0,
    {
        Context { definitions: Vec::new() }
    }

    /// Returns the type definition of the specified type.
    pub fn type_of(&self, id: DefId) -> (d: &Def)
        requires
            id < self.definitions@.len(),
        ensures
            *d == self.definitions@[id as int],
    {
        &self.definitions[id]
    }

    /// Returns the underlying `DefId` of the given definition, resolving any
    /// intermediate typedefs.
    pub fn base_id_of(&self, id: DefId) -> (r: DefId)
        requires
            spec_resolves(self.definitions@, id),
        ensures
            r == spec_base_id(self.definitions@, id),
            r < self.definitions@.len(),
            spec_alias_step(self.definitions@, r) is None,
    {
        let ghost defs = self.definitions@;
        let ghost f0 = choose|f: nat| #[trigger] spec_base_id_within(defs, id, f) is Some;
        let ghost mut f: nat = f0;
        let mut cur = id;
        loop
            invariant
                defs == self.definitions@,
                spec_base_id_within(defs, cur, f) == spec_base_id_within(defs, id, f0),
                spec_base_id_within(defs, id, f0) is Some,
                cur < defs.len(),
            ensures
                spec_base_id_within(defs, id, f0) == Some(cur),
                spec_alias_step(defs, cur) is None,
            decreases f,
        {
            let next = match &self.definitions[cur].kind {
                DefKind::Alias(v) => match v.ty.kind {
                    TyKind::Adt(next_id) => Some(next_id),
                    _ => None,
                },
                DefKind::Const(v) => match v.ty.kind {
                    TyKind::Adt(next_id) => Some(next_id),
                    _ => None,
                },
                _ => None,
            };
            match next {
                Some(n) => {
                    cur = n;
                    proof {
                        f = (f - 1) as nat;
                    }
                },
                None => break,
            }
        }
        cur
    }

    /// Returns the underlying type definition of the given definition,
    /// resolving any intermediate typedefs.
    pub fn base_def_of(&self, id: DefId) -> (d: &Def)
        requires
            spec_resolves(self.definitions@, id),
        ensures
            *d == self.definitions@[spec_base_id(self.definitions@, id) as int],
    {
        let b = self.base_id_of(id);
        self.type_of(b)
    }

    /// Similar to `type_of`, but resolves the underlying type.
    pub fn base_type_of(&self, id: DefId) -> (t: Ty)
        requires
            spec_resolves(self.definitions@, id),
        ensures
            t == spec_base_type(self.definitions@, id),
    {
        let b = self.base_id_of(id);
        let def = &self.definitions[b];
        match &def.kind {
            DefKind::Alias(v) => clone_ty(&v.ty),
            DefKind::Const(v) => clone_ty(&v.ty),
            _ => Ty { kind: TyKind::Adt(b), span: def.span },
        }
    }

    /// Resolves a type through aliases to get the underlying type.
    pub fn resolve_ty(&self, ty: &Ty) -> (t: Ty)
        requires
            ty.kind matches TyKind::Adt(id) ==> spec_resolves(self.definitions@, id),
        ensures
            t == (match ty.kind {
                TyKind::Adt(id) => spec_base_type(self.definitions@, id),
                _ => *ty,
            }),
    {
        match &ty.kind {
            TyKind::Adt(id) => self.base_type_of(*id),
            _ => clone_ty(ty),
        }
    }

    /// Returns the `DefId` of the given type, if one exists. For arrays,
    /// sequences, and maps, this is the element type's definition.
    pub fn def_of(&self, ty: &Ty) -> (r: Option<DefId>)
        ensures
            r == spec_def_of(*ty),
        decreases ty,
    {
        match &ty.kind {
            TyKind::Array { ty, .. } => self.def_of(ty),
            TyKind::Sequence { ty, .. } => self.def_of(ty),
            TyKind::Mapping { elem, .. } => self.def_of(elem),
            TyKind::Adt(id) => Some(*id),
            _ => None,
        }
    }

    /// Returns the name of the given type.
    pub fn ty_name(&self, ty: &Ty) -> (r: String)
        requires
            ty.kind matches TyKind::Adt(id) ==> id < self.definitions@.len(),
        ensures
            r@ == spec_ty_name(self.definitions@, *ty),
    {
        match &ty.kind {
            TyKind::Primitive(p) => String::from_str(p.name()),
            TyKind::String { .. } => String::from_str("string"),
            TyKind::Sequence { .. } => String::from_str("sequence"),
            TyKind::Array { .. } => String::from_str("array"),
            TyKind::Mapping { .. } => String::from_str("map"),
            TyKind::Any => String::from_str("any"),
            TyKind::Fixed => String::from_str("fixed"),
            TyKind::Null => String::from_str("null"),
            TyKind::Adt(def_id) => self.definitions[*def_id].ident.name.clone(),
        }
    }

    fn qualified_name_within(&self, id: DefId, Ghost(fuel): Ghost<nat>) -> (r: String)
        requires
            spec_qualified_within(self.definitions@, id, fuel) is Some,
        ensures
            r@ == spec_qualified_within(self.definitions@, id, fuel)->Some_0,
        decreases fuel,
    {
        let def = &self.definitions[id];
        match def.parent {
            None => def.ident.name.clone(),
            Some(parent_id) => {
                let mut q = self.qualified_name_within(parent_id, Ghost((fuel - 1) as nat));
                q.append("::");
                q.append(def.ident.name.as_str());
                q
            },
        }
    }

    /// Returns the fully qualified name of the given definition: the names
    /// of its enclosing definitions, outermost first, and its own, joined by
    /// `::`.
    pub fn qualified_name(&self, id: DefId) -> (r: String)
        requires
            spec_parents_resolve(self.definitions@, id),
        ensures
            r@ == spec_qualified_name(self.definitions@, id),
    {
        let ghost f = choose|f: nat| #[trigger] spec_qualified_within(self.definitions@, id, f) is Some;
        self.qualified_name_within(id, Ghost(f))
    }

    fn unsigned_value_within(&self, numeric: &Numeric, Ghost(fuel): Ghost<nat>) -> (r: u64)
        requires
            spec_unsigned_within(self.definitions@, *numeric, fuel) is Some,
        ensures
            r == spec_unsigned_within(self.definitions@, *numeric, fuel)->Some_0,
        decreases fuel,
    {
        match numeric {
            Numeric::UInt8(v) => *v as u64,
            Numeric::UInt16(v) => *v as u64,
            Numeric::UInt32(v) => *v as u64,
            Numeric::UInt64(v) => *v,
            Numeric::Int8(v) => unsigned_of_i64(*v as i64),
            Numeric::Int16(v) => unsigned_of_i64(*v as i64),
            Numeric::Int32(v) => unsigned_of_i64(*v as i64),
            Numeric::Int64(v) => unsigned_of_i64(*v),
            Numeric::Const(def_id) => {
                let def = &self.definitions[*def_id];
                if let DefKind::Const(const_def) = &def.kind {
                    self.unsigned_value_within(&const_def.value, Ghost((fuel - 1) as nat))
                } else {
                    0
                }
            },
            _ => 0,
        }
    }

    /// Resolves a numeric value to an unsigned integer, recursively following
    /// `Const` references. Falls back to `0` if the value cannot be
    /// represented as an unsigned integer, negative values included.
    pub fn unsigned_value(&self, numeric: &Numeric) -> (r: u64)
        requires
            spec_value_resolves(self.definitions@, *numeric),
        ensures
            r == spec_unsigned_value(self.definitions@, *numeric),
    {
        let ghost f = choose|f: nat| #[trigger] spec_unsigned_within(self.definitions@, *numeric, f) is Some;
        self.unsigned_value_within(numeric, Ghost(f))
    }

    fn integer_value_within(&self, numeric: &Numeric, Ghost(fuel): Ghost<nat>) -> (r: i64)
        requires
            spec_integer_within(self.definitions@, *numeric, fuel) is Some,
        ensures
            r == spec_integer_within(self.definitions@, *numeric, fuel)->Some_0,
        decreases fuel,
    {
        match numeric {
            Numeric::UInt8(v) => *v as i64,
            Numeric::UInt16(v) => *v as i64,
            Numeric::UInt32(v) => *v as i64,
            Numeric::UInt64(v) => {
                let u = *v;
                if u > i64::MAX as u64 {
                    (u - 0x8000_0000_0000_0000) as i64 - 0x4000_0000_0000_0000 - 0x4000_0000_0000_0000
                } else {
                    u as i64
                }
            },
            Numeric::Int8(v) => *v as i64,
            Numeric::Int16(v) => *v as i64,
            Numeric::Int32(v) => *v as i64,
            Numeric::Int64(v) => *v,
            Numeric::Const(def_id) => {
                let def = &self.definitions[*def_id];
                if let DefKind::Const(const_def) = &def.kind {
                    self.integer_value_within(&const_def.value, Ghost((fuel - 1) as nat))
                } else {
                    0
                }
            },
            _ => 0,
        }
    }

    /// Resolves a numeric value to a signed integer, recursively following
    /// `Const` references. Falls back to `0` if the value cannot be
    /// represented as an integer; unsigned values above `i64::MAX` are read
    /// as 64-bit two's complement.
    pub fn integer_value(&self, numeric: &Numeric) -> (r: i64)
        requires
            spec_value_resolves(self.definitions@, *numeric),
        ensures
            r == spec_integer_value(self.definitions@, *numeric),
    {
        let ghost defs = self.definitions@;
        let ghost f = choose|f: nat| #[trigger] spec_unsigned_within(defs, *numeric, f) is Some;
        proof {
            lemma_integer_fuel(defs, *numeric, f);
            let g = choose|g: nat| #[trigger] spec_integer_within(defs, *numeric, g) is Some;
            lemma_integer_value_fuel(defs, *numeric, f, g);
        }
        self.integer_value_within(numeric, Ghost(f))
    }
}


/// A signed payload as an unsigned value: itself when not negative, else `0`.
fn unsigned_of_i64(v: i64) -> (r: u64)
    ensures
        r == spec_unsigned_of(v as int),
{
    if v < 0 {
        0
    } else {
        v as u64
    }
}

} // verus!

verus! {

/// `char::to_string` (std's `ToString`, through `Display`): the one-character
/// string holding `c`.
#[verifier::external_body]
fn char_to_string(c: char) -> (r: String)
    ensures
        r@ == seq![c],
{
    c.to_string()
}

/// The text of a constant, following constant references with at most
/// `fuel` steps: `None` when the steps run out, a reference leaves the
/// definitions or a floating-point literal is reached; `Some(None)` for a
/// value that has no text.
pub open spec fn spec_string_within(defs: Seq<Def>, n: Numeric, fuel: nat) -> Option<Option<Seq<char>>>
    decreases fuel,
{
    match n {
        Numeric::Bool(v) => Some(Some(if v { "true"@ } else { "false"@ })),
        Numeric::Char(v) => Some(Some(seq![v])),
        Numeric::UInt8(v) => Some(Some(spec_decimal(v as nat))),
        Numeric::UInt16(v) => Some(Some(spec_decimal(v as nat))),
        Numeric::UInt32(v) => Some(Some(spec_decimal(v as nat))),
        Numeric::UInt64(v) => Some(Some(spec_decimal(v as nat))),
        Numeric::Int8(v) => Some(Some(spec_signed_decimal(v as int))),
        Numeric::Int16(v) => Some(Some(spec_signed_decimal(v as int))),
        Numeric::Int32(v) => Some(Some(spec_signed_decimal(v as int))),
        Numeric::Int64(v) => Some(Some(spec_signed_decimal(v as int))),
        Numeric::Const(id) => if fuel == 0 || id >= defs.len() {
            None
        } else {
            match defs[id as int].kind {
                DefKind::Const(c) => spec_string_within(defs, c.value, (fuel - 1) as nat),
                _ => Some(None),
            }
        },
        Numeric::Float(_) => None,
        Numeric::Double(_) => None,
        Numeric::String(s) => Some(Some(s@)),
        _ => Some(None),
    }
}

/// The chain of references from `n` ends, within the definitions, at a
/// value that is no floating-point literal.
pub open spec fn spec_string_resolves(defs: Seq<Def>, n: Numeric) -> bool {
    exists|f: nat| #[trigger] spec_string_within(defs, n, f) is Some
}

/// The text of a constant.
pub open spec fn spec_string_value(defs: Seq<Def>, n: Numeric) -> Option<Seq<char>> {
    spec_string_within(defs, n, choose|f: nat| #[trigger] spec_string_within(defs, n, f) is Some)->Some_0
}

impl Context {
    /// Resolves a numeric value to a string, recursively following `Const`
    /// references. Returns `None` if the value cannot be represented as a
    /// string.
    pub fn string_value(&self, numeric: &Numeric) -> (r: Option<String>)
        requires
            spec_string_resolves(self.definitions@, *numeric),
        ensures
            match r {
                Some(s) => spec_string_value(self.definitions@, *numeric) == Some(s@),
                None => spec_string_value(self.definitions@, *numeric) is None,
            },
    {
        let ghost defs = self.definitions@;
        let ghost f0 = choose|f: nat| #[trigger] spec_string_within(defs, *numeric, f) is Some;
        let ghost mut fuel: nat = f0;
        let mut cur = numeric;
        loop
            invariant
                defs == self.definitions@,
                spec_string_within(defs, *cur, fuel) is Some,
                spec_string_within(defs, *cur, fuel) == spec_string_within(defs, *numeric, f0),
                f0 == choose|f: nat| #[trigger] spec_string_within(defs, *numeric, f) is Some,
            decreases fuel,
        {
            match cur {
                Numeric::Bool(v) => {
                    return Some(owned(if *v { "true" } else { "false" }));
                },
                Numeric::Char(v) => {
                    return Some(char_to_string(*v));
                },
                Numeric::UInt8(v) => {
                    return Some(decimal_u64(*v as u64));
                },
                Numeric::UInt16(v) => {
                    return Some(decimal_u64(*v as u64));
                },
                Numeric::UInt32(v) => {
                    return Some(decimal_u64(*v as u64));
                },
                Numeric::UInt64(v) => {
                    return Some(decimal_u64(*v));
                },
                Numeric::Int8(v) => {
                    return Some(decimal_i64(*v as i64));
                },
                Numeric::Int16(v) => {
                    return Some(decimal_i64(*v as i64));
                },
                Numeric::Int32(v) => {
                    return Some(decimal_i64(*v as i64));
                },
                Numeric::Int64(v) => {
                    return Some(decimal_i64(*v));
                },
                Numeric::Const(def_id) => {
                    let def = self.type_of(*def_id);
                    match &def.kind {
                        DefKind::Const(const_def) => {
                            cur = &const_def.value;
                            proof {
                                fuel = (fuel - 1) as nat;
                            }
                        },
                        _ => {
                            return None;
                        },
                    }
                },
                Numeric::String(v) => {
                    return Some(v.clone());
                },
                _ => {
                    return None;
                },
            }
        }
    }
}

} // verus!
