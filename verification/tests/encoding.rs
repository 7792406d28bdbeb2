use mir_json::consts::{do_const_eval, eval_array_len, read_static_memory, render_constant};
use mir_json::consts::const_json;
use mir_json::encode::{borrow_kind_json, defid_str, ty_json, EncodeError};
use mir_json::ir::{
    AdtDef, AggregateKind, Alloc, AssocItem, AssocKind, BorrowKind, Const, ConstVal, Container,
    Ctx, CtorKind, DefData, Defaultness, FieldDef, FloatKind, Instance, IntKind, Member, Mutability,
    Operand, ParamDef, Pointer, Predicate, Subst, TraitRef, Ty, UintKind, VariantDef, VariantDiscr,
};
use mir_json::items::{
    adt_json, assoc_item_json, generics_json, handle_adt_ag, is_adt_ak, predicates_json,
    variant_discr_json, ToJsonAg,
};
use mir_json::json::JsonValue;
use mir_json::numeric::{render_signed, u128_to_dec};

fn empty_ctx() -> Ctx {
    Ctx { defs: vec![], allocs: vec![], instances: vec![] }
}

fn def(path: &str) -> DefData {
    DefData {
        path: path.to_string(),
        parent: None,
        own_params: vec![],
        own_preds: vec![],
        ty: None,
        sig: None,
        trait_ref: None,
        members: vec![],
    }
}

fn jstr(s: &str) -> JsonValue {
    JsonValue::Str(s.to_string())
}

fn obj(fields: Vec<(&str, JsonValue)>) -> JsonValue {
    JsonValue::Obj(fields.into_iter().map(|(k, v)| (k.to_string(), v)).collect())
}

fn lit(r: Result<Option<(String, JsonValue)>, EncodeError>) -> (String, JsonValue) {
    r.expect("rendering failed").expect("no literal produced")
}

#[test]
fn decimal_of_zero_and_max() {
    assert_eq!(u128_to_dec(0), "0");
    assert_eq!(u128_to_dec(10), "10");
    assert_eq!(u128_to_dec(255), "255");
    assert_eq!(
        u128_to_dec(u128::MAX),
        "340282366920938463463374607431768211455"
    );
}

#[test]
fn signed_rendering_sign_extends() {
    assert_eq!(render_signed(1, 0xFF), "-1");
    assert_eq!(render_signed(1, 0x7F), "127");
    assert_eq!(render_signed(1, 0x80), "-128");
    assert_eq!(render_signed(2, 0xFFFF), "-1");
    assert_eq!(render_signed(16, u128::MAX), "-1");
    assert_eq!(render_signed(16, 1u128 << 127), "-170141183460469231731687303715884105728");
}

#[test]
fn signed_byte_renders_minus_one() {
    let ctx = empty_ctx();
    let (key, val) = lit(render_constant(&ctx, &Ty::Int(IntKind::I8), Some((1, 0xFF)), None));
    assert_eq!(key, "int_val");
    assert_eq!(val, jstr("-1"));
}

#[test]
fn unsigned_byte_renders_full_bits() {
    let ctx = empty_ctx();
    let (key, val) = lit(render_constant(&ctx, &Ty::Uint(UintKind::U8), Some((1, 0xFF)), None));
    assert_eq!(key, "int_val");
    assert_eq!(val, jstr("255"));
}

#[test]
fn float_renders_as_its_bits() {
    let ctx = empty_ctx();
    let (key, val) = lit(render_constant(
        &ctx,
        &Ty::Float(FloatKind::F32Kind),
        Some((4, 0x3F800000)),
        None,
    ));
    assert_eq!(key, "float_val");
    assert_eq!(val, JsonValue::FloatBits(false, 0x3F800000));
    // The document writer turns the bits into the decimal form.
    assert_eq!(f32::from_bits(0x3F800000).to_string(), "1");
}

#[test]
fn string_slice_renders_bytes() {
    let mut ctx = empty_ctx();
    ctx.allocs.push(Alloc { bytes: vec![0x68, 0x69], relocations: vec![] });
    let ty = Ty::Ref(Box::new(Ty::Str), Mutability::MutImmutable);
    let ptr = Pointer { alloc_id: 0, offset: 0 };
    let (key, val) = lit(render_constant(&ctx, &ty, Some((8, 2)), Some(ptr)));
    assert_eq!(key, "str_val");
    assert_eq!(val, JsonValue::Arr(vec![JsonValue::Num(0x68), JsonValue::Num(0x69)]));
}

#[test]
fn byte_string_renders_after_forcing_length() {
    let mut ctx = empty_ctx();
    ctx.defs.push(def("byte_string_len"));
    ctx.allocs.push(Alloc { bytes: vec![1, 2, 3], relocations: vec![] });
    ctx.instances.push(Instance {
        def_id: 0,
        substs: vec![],
        val: ConstVal::Bits { size: 8, bits: 3 },
    });
    let len_const = Const {
        ty: Ty::Uint(UintKind::Usize),
        val: ConstVal::Unevaluated(0, vec![]),
    };
    let ty = Ty::Ref(
        Box::new(Ty::Array(Box::new(Ty::Uint(UintKind::U8)), Box::new(len_const))),
        Mutability::MutImmutable,
    );
    let ptr = Pointer { alloc_id: 0, offset: 0 };
    let (key, val) = lit(render_constant(&ctx, &ty, None, Some(ptr)));
    assert_eq!(key, "bstr_val");
    assert_eq!(
        val,
        JsonValue::Arr(vec![JsonValue::Num(1), JsonValue::Num(2), JsonValue::Num(3)])
    );
}

#[test]
fn unrenderable_shape_keeps_type_only() {
    let ctx = empty_ctx();
    let r = render_constant(&ctx, &Ty::Never, Some((1, 0)), None);
    assert_eq!(r, Ok(None));
}

#[test]
fn scalar_missing_is_reported() {
    let ctx = empty_ctx();
    assert_eq!(
        render_constant(&ctx, &Ty::Int(IntKind::I32), None, None),
        Err(EncodeError::ScalarMissing)
    );
}

#[test]
fn bad_scalar_size_is_reported() {
    let ctx = empty_ctx();
    assert_eq!(
        render_constant(&ctx, &Ty::Int(IntKind::I32), Some((0, 7)), None),
        Err(EncodeError::BadScalarSize)
    );
}

#[test]
fn pointer_missing_is_reported() {
    let ctx = empty_ctx();
    let ty = Ty::Ref(Box::new(Ty::Str), Mutability::MutImmutable);
    assert_eq!(render_constant(&ctx, &ty, Some((8, 2)), None), Err(EncodeError::PointerMissing));
}

#[test]
fn evaluation_failure_names_the_definition() {
    let mut ctx = empty_ctx();
    ctx.defs.push(def("mystery"));
    let r = do_const_eval(&ctx, 0, &vec![]);
    assert_eq!(r, Err(EncodeError::EvalFailed { def_id: 0 }));
}

#[test]
fn evaluation_matches_on_the_substitution() {
    let mut ctx = empty_ctx();
    ctx.defs.push(def("keyed"));
    ctx.instances.push(Instance {
        def_id: 0,
        substs: vec![Subst::TyArg(Ty::Bool)],
        val: ConstVal::Bits { size: 1, bits: 1 },
    });
    assert_eq!(
        do_const_eval(&ctx, 0, &vec![Subst::TyArg(Ty::Bool)]),
        Ok(&ConstVal::Bits { size: 1, bits: 1 })
    );
    assert_eq!(
        do_const_eval(&ctx, 0, &vec![Subst::TyArg(Ty::Char)]),
        Err(EncodeError::EvalFailed { def_id: 0 })
    );
}

#[test]
fn array_length_out_of_native_range_is_reported() {
    let ctx = empty_ctx();
    let c = Const {
        ty: Ty::Uint(UintKind::Usize),
        val: ConstVal::Bits { size: 16, bits: u128::MAX },
    };
    assert_eq!(eval_array_len(&ctx, &c), Err(EncodeError::LenTooBig));
}

#[test]
fn array_length_non_scalar_is_reported() {
    let ctx = empty_ctx();
    let c = Const { ty: Ty::Uint(UintKind::Usize), val: ConstVal::Opaque };
    assert_eq!(eval_array_len(&ctx, &c), Err(EncodeError::LenNonScalar));
}

#[test]
fn memory_reader_rejects_unknown_allocation() {
    let ctx = empty_ctx();
    let ptr = Pointer { alloc_id: 5, offset: 0 };
    assert_eq!(read_static_memory(&ctx, ptr, 1), Err(EncodeError::NoAlloc { alloc_id: 5 }));
}

#[test]
fn memory_reader_rejects_out_of_bounds() {
    let mut ctx = empty_ctx();
    ctx.allocs.push(Alloc { bytes: vec![1, 2], relocations: vec![] });
    let ptr = Pointer { alloc_id: 0, offset: 1 };
    assert_eq!(read_static_memory(&ctx, ptr, 2), Err(EncodeError::OutOfBounds { alloc_id: 0 }));
}

#[test]
fn memory_reader_rejects_relocated_range() {
    let mut ctx = empty_ctx();
    ctx.allocs.push(Alloc { bytes: vec![1, 2, 3, 4], relocations: vec![1] });
    let ptr = Pointer { alloc_id: 0, offset: 0 };
    assert_eq!(read_static_memory(&ctx, ptr, 2), Err(EncodeError::Relocated { alloc_id: 0 }));
    // The same allocation is readable past the relocation.
    assert_eq!(read_static_memory(&ctx, Pointer { alloc_id: 0, offset: 2 }, 2), Ok(vec![3, 4]));
}

#[test]
fn bool_type_reference() {
    let ctx = empty_ctx();
    let mut used = vec![];
    let r = ty_json(&ctx, &mut used, &Ty::Bool).unwrap();
    assert_eq!(r, obj(vec![("kind", jstr("Bool"))]));
    assert!(used.is_empty());
}

#[test]
fn tuple_type_reference() {
    let ctx = empty_ctx();
    let mut used = vec![];
    let r = ty_json(&ctx, &mut used, &Ty::Tuple(vec![Ty::Bool, Ty::Char])).unwrap();
    assert_eq!(
        r,
        obj(vec![
            ("kind", jstr("Tuple")),
            (
                "tys",
                JsonValue::Arr(vec![
                    obj(vec![("kind", jstr("Bool"))]),
                    obj(vec![("kind", jstr("Char"))]),
                ])
            ),
        ])
    );
}

#[test]
fn adt_reference_carries_no_definition_data() {
    let mut ctx = empty_ctx();
    ctx.defs.push(def("my_struct"));
    let mut used = vec![];
    let t = Ty::Adt(0, vec![Subst::Lifetime]);
    let r = ty_json(&ctx, &mut used, &t).unwrap();
    assert_eq!(
        r,
        obj(vec![
            ("kind", jstr("Adt")),
            ("name", jstr("my_struct")),
            ("substs", JsonValue::Arr(vec![obj(vec![("kind", jstr("Lifetime"))])])),
        ])
    );
    assert_eq!(used, vec![0]);
}

#[test]
fn used_types_lists_each_aggregate_once() {
    let mut ctx = empty_ctx();
    ctx.defs.push(def("my_struct"));
    ctx.defs.push(def("other"));
    let mut used = vec![];
    let t = Ty::Tuple(vec![
        Ty::Adt(0, vec![]),
        Ty::Adt(1, vec![]),
        Ty::Adt(0, vec![]),
    ]);
    ty_json(&ctx, &mut used, &t).unwrap();
    assert_eq!(used, vec![0, 1]);
}

#[test]
fn encoding_twice_gives_identical_records() {
    let mut ctx = empty_ctx();
    ctx.defs.push(def("my_struct"));
    ctx.defs.push(def("my_struct::v"));
    ctx.defs.push(def("my_struct::v::x"));
    let mut fd = def("my_struct::v::x");
    fd.ty = Some(Ty::Uint(UintKind::U32));
    ctx.defs[2] = fd;
    let adt = AdtDef {
        did: 0,
        variants: vec![VariantDef {
            did: 1,
            discr: VariantDiscr::Relative(0),
            fields: vec![FieldDef { did: 2 }],
            ctor_kind: CtorKind::FnCtor,
        }],
    };
    let substs = vec![Subst::TyArg(Ty::Bool)];
    let mut used1 = vec![];
    let mut used2 = vec![7usize];
    let r1 = adt_json(&ctx, &mut used1, &adt, &substs).unwrap();
    let r2 = adt_json(&ctx, &mut used2, &adt, &substs).unwrap();
    assert_eq!(r1, r2);
    let mut used3 = vec![];
    let r3 = adt.tojson(&ctx, &mut used3, &substs).unwrap();
    assert_eq!(r1, r3);
}

#[test]
fn generics_flatten_parent_before_own() {
    let mut ctx = empty_ctx();
    let mut parent = def("my_impl");
    parent.own_params = vec![ParamDef { name: "T".to_string(), def_id: 0 }];
    ctx.defs.push(parent);
    let mut child = def("my_impl::method");
    child.parent = Some(0);
    child.own_params = vec![ParamDef { name: "U".to_string(), def_id: 1 }];
    ctx.defs.push(child);
    let r = generics_json(&ctx, 1);
    assert_eq!(
        r,
        obj(vec![(
            "params",
            JsonValue::Arr(vec![
                obj(vec![("param_def", jstr("T")), ("def_id", jstr("my_impl"))]),
                obj(vec![("param_def", jstr("U")), ("def_id", jstr("my_impl::method"))]),
            ])
        )])
    );
}

#[test]
fn predicates_flatten_in_the_same_order_as_generics() {
    let mut ctx = empty_ctx();
    ctx.defs.push(def("a_trait"));
    ctx.defs.push(def("b_trait"));
    let mut parent = def("my_impl");
    parent.own_preds = vec![Predicate::Trait(TraitRef { def_id: 0, substs: vec![] })];
    ctx.defs.push(parent);
    let mut child = def("my_impl::method");
    child.parent = Some(2);
    child.own_preds = vec![
        Predicate::Trait(TraitRef { def_id: 1, substs: vec![] }),
        Predicate::Other,
    ];
    ctx.defs.push(child);
    let mut used = vec![];
    let r = predicates_json(&ctx, &mut used, 3).unwrap();
    assert_eq!(
        r,
        obj(vec![(
            "predicates",
            JsonValue::Arr(vec![
                obj(vec![(
                    "trait_pred",
                    obj(vec![("trait", jstr("a_trait")), ("substs", JsonValue::Arr(vec![]))])
                )]),
                obj(vec![(
                    "trait_pred",
                    obj(vec![("trait", jstr("b_trait")), ("substs", JsonValue::Arr(vec![]))])
                )]),
                jstr("unknown_pred"),
            ])
        )])
    );
}

#[test]
fn impl_member_carries_implements_link() {
    let mut ctx = empty_ctx();
    // 0: the trait, with a member named f; 1: the trait's f; 2: the impl;
    // 3: the impl's f.
    let mut tr = def("a_trait");
    tr.members = vec![Member { name: "f".to_string(), def_id: 1 }];
    ctx.defs.push(tr);
    let mut trait_f = def("a_trait::f");
    trait_f.sig = Some(mir_json::ir::FnSig { inputs: vec![], output: Box::new(Ty::Bool) });
    ctx.defs.push(trait_f);
    let mut imp = def("an_impl");
    imp.trait_ref = Some(TraitRef { def_id: 0, substs: vec![] });
    ctx.defs.push(imp);
    let mut impl_f = def("an_impl::f");
    impl_f.sig = Some(mir_json::ir::FnSig { inputs: vec![], output: Box::new(Ty::Bool) });
    ctx.defs.push(impl_f);
    let item = AssocItem {
        def_id: 3,
        name: "f".to_string(),
        kind: AssocKind::Method,
        defaultness: Defaultness::Final,
        container: Container::ImplContainer(2),
    };
    let mut used = vec![];
    let r = assoc_item_json(&ctx, &mut used, &item).unwrap();
    match &r {
        JsonValue::Obj(fields) => {
            let last = fields.last().unwrap();
            assert_eq!(last.0, "implements");
            assert_eq!(last.1, jstr("a_trait::f"));
        }
        _ => panic!("expected an object"),
    }
}

#[test]
fn inherent_member_has_no_implements_link() {
    let mut ctx = empty_ctx();
    ctx.defs.push(def("an_impl"));
    let mut impl_f = def("an_impl::f");
    impl_f.sig = Some(mir_json::ir::FnSig { inputs: vec![], output: Box::new(Ty::Bool) });
    ctx.defs.push(impl_f);
    let item = AssocItem {
        def_id: 1,
        name: "f".to_string(),
        kind: AssocKind::Method,
        defaultness: Defaultness::Final,
        container: Container::ImplContainer(0),
    };
    let mut used = vec![];
    let r = assoc_item_json(&ctx, &mut used, &item).unwrap();
    match &r {
        JsonValue::Obj(fields) => {
            assert!(fields.iter().all(|(k, _)| k != "implements"));
        }
        _ => panic!("expected an object"),
    }
}

#[test]
fn declared_unresolved_type_member_omits_payload() {
    let mut ctx = empty_ctx();
    ctx.defs.push(def("a_trait"));
    let mut at = def("a_trait::item");
    at.parent = None;
    ctx.defs.push(at);
    let item = AssocItem {
        def_id: 1,
        name: "item".to_string(),
        kind: AssocKind::Type,
        defaultness: Defaultness::DefaultNoValue,
        container: Container::TraitContainer(0),
    };
    let mut used = vec![];
    let r = assoc_item_json(&ctx, &mut used, &item).unwrap();
    match &r {
        JsonValue::Obj(fields) => {
            assert!(fields.iter().all(|(k, _)| k != "type"));
            assert!(fields.iter().any(|(k, v)| k == "kind" && *v == jstr("Type")));
        }
        _ => panic!("expected an object"),
    }
}

#[test]
fn constant_record_keeps_initializer_and_literal() {
    let mut ctx = empty_ctx();
    ctx.defs.push(def("the_const"));
    ctx.instances.push(Instance {
        def_id: 0,
        substs: vec![],
        val: ConstVal::Bits { size: 1, bits: 7 },
    });
    let c = Const { ty: Ty::Uint(UintKind::U8), val: ConstVal::Unevaluated(0, vec![]) };
    let mut used = vec![];
    let r = const_json(&ctx, &mut used, &c).unwrap();
    assert_eq!(
        r,
        obj(vec![
            ("kind", jstr("Const")),
            ("ty", obj(vec![("kind", jstr("Uint")), ("uintkind", jstr("U8"))])),
            (
                "initializer",
                obj(vec![("def_id", jstr("the_const")), ("substs", JsonValue::Arr(vec![]))])
            ),
            ("int_val", jstr("7")),
        ])
    );
}

#[test]
fn aggregate_construction_encodes_definition_and_operands() {
    let mut ctx = empty_ctx();
    ctx.defs.push(def("my_enum"));
    ctx.defs.push(def("my_enum::a"));
    let adt = AdtDef {
        did: 0,
        variants: vec![VariantDef {
            did: 1,
            discr: VariantDiscr::Relative(0),
            fields: vec![],
            ctor_kind: CtorKind::ConstCtor,
        }],
    };
    let ak = AggregateKind::Adt(adt, 0, vec![]);
    assert!(is_adt_ak(&ak));
    assert!(!is_adt_ak(&AggregateKind::Other));
    let ops = vec![Operand::Constant(Const {
        ty: Ty::Bool,
        val: ConstVal::Bits { size: 1, bits: 1 },
    })];
    let mut used = vec![];
    let r = handle_adt_ag(&ctx, &mut used, &ak, &ops).unwrap();
    assert_eq!(
        r,
        obj(vec![
            (
                "adt",
                obj(vec![
                    ("name", jstr("my_enum")),
                    (
                        "variants",
                        JsonValue::Arr(vec![obj(vec![
                            ("name", jstr("my_enum::a")),
                            ("discr", obj(vec![("kind", jstr("Relative")), ("index", JsonValue::Num(0))])),
                            ("fields", JsonValue::Arr(vec![])),
                            ("ctor_kind", jstr("Const")),
                        ])])
                    ),
                ])
            ),
            ("variant", JsonValue::Num(0)),
            (
                "ops",
                JsonValue::Arr(vec![obj(vec![
                    ("kind", jstr("Constant")),
                    (
                        "data",
                        obj(vec![
                            ("kind", jstr("Const")),
                            ("ty", obj(vec![("kind", jstr("Bool"))])),
                            ("int_val", jstr("1")),
                        ])
                    ),
                ])])
            ),
        ])
    );
}

#[test]
fn discriminants_and_borrow_kinds() {
    let mut ctx = empty_ctx();
    ctx.defs.push(def("the_discr"));
    assert_eq!(
        variant_discr_json(&ctx, VariantDiscr::Relative(2)),
        obj(vec![("kind", jstr("Relative")), ("index", JsonValue::Num(2))])
    );
    assert_eq!(
        variant_discr_json(&ctx, VariantDiscr::Explicit(0)),
        obj(vec![("kind", jstr("Explicit")), ("name", jstr("the_discr"))])
    );
    assert_eq!(borrow_kind_json(BorrowKind::Shared), jstr("Shared"));
    assert_eq!(borrow_kind_json(BorrowKind::MutBorrow), jstr("Mut"));
}

#[test]
fn defid_str_is_the_stable_path() {
    let mut ctx = empty_ctx();
    ctx.defs.push(def("a::b::c"));
    assert_eq!(defid_str(&ctx, 0), "a::b::c");
}

#[test]
fn unsupported_kind_degrades_to_placeholder() {
    let ctx = empty_ctx();
    let mut used = vec![];
    assert_eq!(
        ty_json(&ctx, &mut used, &Ty::Generator).unwrap(),
        obj(vec![("kind", jstr("Generator"))])
    );
    assert_eq!(
        ty_json(&ctx, &mut used, &Ty::Opaque).unwrap(),
        obj(vec![("kind", jstr("Opaque"))])
    );
}

#[test]
fn array_type_forces_its_length_and_fails_loudly() {
    let mut ctx = empty_ctx();
    ctx.defs.push(def("the_len"));
    let t = Ty::Array(
        Box::new(Ty::Bool),
        Box::new(Const {
            ty: Ty::Uint(UintKind::Usize),
            val: ConstVal::Unevaluated(0, vec![]),
        }),
    );
    let mut used = vec![];
    assert_eq!(
        ty_json(&ctx, &mut used, &t),
        Err(EncodeError::EvalFailed { def_id: 0 })
    );
}

#[test]
fn trait_object_keeps_principal_trait_only() {
    let mut ctx = empty_ctx();
    ctx.defs.push(def("a_trait"));
    let mut used = vec![];
    let r = ty_json(&ctx, &mut used, &Ty::Dynamic(0)).unwrap();
    assert_eq!(r, obj(vec![("kind", jstr("Dynamic")), ("data", jstr("a_trait"))]));
}

#[test]
fn function_pointer_carries_its_signature() {
    let ctx = empty_ctx();
    let mut used = vec![];
    let t = Ty::FnPtr(mir_json::ir::FnSig {
        inputs: vec![Ty::Param(0)],
        output: Box::new(Ty::Bool),
    });
    let r = ty_json(&ctx, &mut used, &t).unwrap();
    assert_eq!(
        r,
        obj(vec![
            ("kind", jstr("FnPtr")),
            (
                "signature",
                obj(vec![
                    (
                        "inputs",
                        JsonValue::Arr(vec![obj(vec![
                            ("kind", jstr("Param")),
                            ("param", JsonValue::Num(0)),
                        ])])
                    ),
                    ("output", obj(vec![("kind", jstr("Bool"))])),
                ])
            ),
        ])
    );
}

#[test]
fn wide_float_renders_as_wide_bits() {
    let ctx = empty_ctx();
    let bits = 1.5f64.to_bits();
    let (key, val) = lit(render_constant(
        &ctx,
        &Ty::Float(FloatKind::F64Kind),
        Some((8, bits as u128)),
        None,
    ));
    assert_eq!(key, "float_val");
    assert_eq!(val, JsonValue::FloatBits(true, bits));
}

#[test]
fn field_and_variant_encode_through_the_trait() {
    let mut ctx = empty_ctx();
    let mut fd = def("s::v::f");
    fd.ty = Some(Ty::Bool);
    ctx.defs.push(fd);
    let field = FieldDef { did: 0 };
    let mut used = vec![];
    let r = field.tojson(&ctx, &mut used, &vec![]).unwrap();
    assert_eq!(
        r,
        obj(vec![
            ("name", jstr("s::v::f")),
            ("ty", obj(vec![("kind", jstr("Bool"))])),
            ("substs", JsonValue::Arr(vec![])),
        ])
    );
}
