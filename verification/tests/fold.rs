use ic_hir::fold::{
    fold_alias_ty, fold_annotation, fold_annotation_ty, fold_attribute, fold_bitmask_ty, fold_bitset_ty,
    fold_const_ty, fold_def, fold_enum_ty, fold_except_ty, fold_interface_ty, fold_member, fold_module_ty,
    fold_numeric, fold_parameter, fold_proto_ty, fold_struct_ty, fold_ty, fold_union_ty, fold_valuetype,
    fold_variant, Fold,
};
use ic_hir::hir::{
    AliasTy, Ann, AnnArg, AnnotationTy, Attribute, BitmaskTy, BitsetTy, ConstTy, Decl, Def, DefFlags, DefKind,
    EnumTy, ExceptTy, Ident, InterfaceTy, Member, ModuleTy, Numeric, Parameter, PrimitiveTy, ProtoTy, Span,
    StructTy, Ty, TyKind, UnionTy, ValueTy, Variant,
};

/// Redirects every named type from one definition to another, counting the
/// types it sees; everything else takes the standard traversal.
struct Rename {
    from: usize,
    to: usize,
    types_seen: usize,
}

impl Fold for Rename {
    fn fold_def(&mut self, def: Def) -> Def {
        fold_def(self, def)
    }
    fn fold_decl(&mut self, decl: Decl) -> Decl {
        decl
    }
    fn fold_ty(&mut self, ty: Ty) -> Ty {
        self.types_seen += 1;
        match ty.kind {
            TyKind::Adt(id) if id == self.from => Ty { span: ty.span, kind: TyKind::Adt(self.to) },
            _ => fold_ty(self, ty),
        }
    }
    fn fold_numeric(&mut self, num: Numeric) -> Numeric {
        match num {
            Numeric::Const(id) if id == self.from => Numeric::Const(self.to),
            n => fold_numeric(self, n),
        }
    }
    fn fold_struct_ty(&mut self, s: StructTy) -> StructTy {
        fold_struct_ty(self, s)
    }
    fn fold_enum_ty(&mut self, e: EnumTy) -> EnumTy {
        fold_enum_ty(self, e)
    }
    fn fold_union_ty(&mut self, u: UnionTy) -> UnionTy {
        fold_union_ty(self, u)
    }
    fn fold_alias_ty(&mut self, a: AliasTy) -> AliasTy {
        fold_alias_ty(self, a)
    }
    fn fold_bitmask_ty(&mut self, b: BitmaskTy) -> BitmaskTy {
        fold_bitmask_ty(self, b)
    }
    fn fold_bitset_ty(&mut self, b: BitsetTy) -> BitsetTy {
        fold_bitset_ty(self, b)
    }
    fn fold_const_ty(&mut self, c: ConstTy) -> ConstTy {
        fold_const_ty(self, c)
    }
    fn fold_interface_ty(&mut self, i: InterfaceTy) -> InterfaceTy {
        fold_interface_ty(self, i)
    }
    fn fold_valuetype(&mut self, v: ValueTy) -> ValueTy {
        fold_valuetype(self, v)
    }
    fn fold_except_ty(&mut self, e: ExceptTy) -> ExceptTy {
        fold_except_ty(self, e)
    }
    fn fold_module_ty(&mut self, m: ModuleTy) -> ModuleTy {
        fold_module_ty(self, m)
    }
    fn fold_annotation_ty(&mut self, a: AnnotationTy) -> AnnotationTy {
        fold_annotation_ty(self, a)
    }
    fn fold_member(&mut self, m: Member) -> Member {
        fold_member(self, m)
    }
    fn fold_variant(&mut self, v: Variant) -> Variant {
        fold_variant(self, v)
    }
    fn fold_parameter(&mut self, p: Parameter) -> Parameter {
        fold_parameter(self, p)
    }
    fn fold_proto_ty(&mut self, p: ProtoTy) -> ProtoTy {
        fold_proto_ty(self, p)
    }
    fn fold_annotation(&mut self, a: Ann) -> Ann {
        fold_annotation(self, a)
    }
    fn fold_attribute(&mut self, a: Attribute) -> Attribute {
        fold_attribute(self, a)
    }
}

fn sp(start: usize, end: usize) -> Span {
    Span { start, end }
}

fn ty(kind: TyKind) -> Ty {
    Ty { span: sp(3, 4), kind }
}

fn ident(name: &str) -> Ident {
    Ident { name: name.to_string(), span: sp(0, name.len()) }
}

#[test]
fn folding_a_type_reaches_nested_types() {
    let mut f = Rename { from: 1, to: 2, types_seen: 0 };
    let t = ty(TyKind::Sequence { ty: Box::new(ty(TyKind::Adt(1))), bound: Some(4), bound_span: None });
    let r = f.fold_ty(t);
    assert_eq!(r, ty(TyKind::Sequence { ty: Box::new(ty(TyKind::Adt(2))), bound: Some(4), bound_span: None }));
    assert_eq!(f.types_seen, 2);
    let p = ty(TyKind::Primitive(PrimitiveTy::Int16));
    assert_eq!(fold_ty(&mut f, p), ty(TyKind::Primitive(PrimitiveTy::Int16)));
}

#[test]
fn folding_values_keeps_their_shape() {
    let mut f = Rename { from: 1, to: 2, types_seen: 0 };
    let v = Numeric::Array { ty: ty(TyKind::Adt(1)), values: vec![Numeric::Const(1), Numeric::Int8(3)] };
    assert_eq!(
        fold_numeric(&mut f, v),
        Numeric::Array { ty: ty(TyKind::Adt(2)), values: vec![Numeric::Const(2), Numeric::Int8(3)] }
    );
    let u = Numeric::Union {
        ty: 1,
        discriminant: Box::new(Numeric::Const(1)),
        field_index: 2,
        value: Box::new(Numeric::Bool(true)),
    };
    assert_eq!(
        fold_numeric(&mut f, u),
        Numeric::Union { ty: 1, discriminant: Box::new(Numeric::Const(2)), field_index: 2, value: Box::new(Numeric::Bool(true)) }
    );
    assert_eq!(fold_numeric(&mut f, Numeric::UInt64(9)), Numeric::UInt64(9));
}

#[test]
fn folding_a_definition_reaches_members_and_annotations() {
    let mut f = Rename { from: 1, to: 2, types_seen: 0 };
    let ann = Ann {
        ident: ident("range"),
        def_id: Some(7),
        args: vec![AnnArg { ident: ident("min"), value: Numeric::Const(1), ty: Some(ty(TyKind::Adt(1))) }],
    };
    let def = Def {
        id: 0,
        ident: ident("S"),
        parent: None,
        annotations: vec![ann],
        span: sp(0, 20),
        kind: DefKind::Struct(StructTy {
            parent: None,
            members: vec![Member { ident: ident("m"), ty: ty(TyKind::Adt(1)), annotations: vec![] }],
        }),
        flags: DefFlags { bits: 4 },
    };
    let r = f.fold_def(def);
    assert_eq!(r.ident, ident("S"));
    assert_eq!(r.flags, DefFlags { bits: 4 });
    assert_eq!(r.annotations[0].args[0].value, Numeric::Const(2));
    assert_eq!(r.annotations[0].args[0].ty, Some(ty(TyKind::Adt(2))));
    match &r.kind {
        DefKind::Struct(s) => assert_eq!(s.members[0].ty, ty(TyKind::Adt(2))),
        _ => panic!("struct expected"),
    }
    assert_eq!(f.types_seen, 2);
}

#[test]
fn folding_a_scalar_value_leaves_the_folder_alone() {
    let mut f = Rename { from: 1, to: 2, types_seen: 5 };
    assert_eq!(fold_numeric(&mut f, Numeric::Int16(-7)), Numeric::Int16(-7));
    assert_eq!(fold_numeric(&mut f, Numeric::String("x".to_string())), Numeric::String("x".to_string()));
    assert_eq!(fold_numeric(&mut f, Numeric::Const(1)), Numeric::Const(1));
    assert_eq!(f.types_seen, 5);
    let arr = Numeric::Array { ty: ty(TyKind::Adt(3)), values: vec![Numeric::Int8(1)] };
    fold_numeric(&mut f, arr);
    assert_eq!(f.types_seen, 6);
}
