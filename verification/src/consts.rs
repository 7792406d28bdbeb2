//! Forcing constants and rendering literal values.
//!
//! A constant that is not yet evaluated carries an initializer key; forcing
//! it asks the context's evaluation table for the recorded outcome. Known
//! renderable shapes — integers, floats, string slices, byte-string arrays —
//! become literal document values; any other shape keeps only its type and
//! initializer. Every failure is a typed value naming the definition or the
//! allocation at fault, never an abort.

use vstd::prelude::*;
use crate::ir::{
    Const, ConstVal, Ctx, DefId, FloatKind, Mutability, Pointer, Subst, Ty, UintKind, first_match,
    substs_eq,
};
use crate::json::{JVal, JsonValue, jfields_of, jvals_of, lemma_jvals_of_pointwise, obj_field};
use crate::encode::{
    Enc, EncodeError, defid_str, obj2, obj2_json, res_view, substs_enc, substs_json, ty_enc,
    ty_json,
};
use crate::numeric::{dec_str, int_str, render_signed, sign_ext_val, u128_to_dec};

verus! {

/// The recorded outcome of forcing the constant defined by `d` at the
/// substitution `s`: the model of the host's resolve-and-evaluate step.
pub open spec fn eval_spec(ctx: Ctx, d: DefId, s: Seq<Subst>) -> Result<ConstVal, EncodeError> {
    match first_match(ctx.instances@, d, s) {
        Option::Some(v) => Result::Ok(v),
        Option::None => Result::Err(EncodeError::EvalFailed { def_id: d }),
    }
}

/// Whether an embedded pointer covers any byte of the requested range.
pub open spec fn range_relocated(a: crate::ir::Alloc, off: int, len: int) -> bool {
    exists|i: int| 0 <= i < a.relocations@.len() && off <= #[trigger] a.relocations@[i] < off + len
}

/// What reading `len` bytes at `ptr` from the allocation table yields.
pub open spec fn read_mem_spec(ctx: Ctx, ptr: Pointer, len: int) -> Result<Seq<u8>, EncodeError> {
    if ptr.alloc_id >= ctx.allocs@.len() {
        Result::Err(EncodeError::NoAlloc { alloc_id: ptr.alloc_id })
    } else {
        let a = ctx.allocs@[ptr.alloc_id as int];
        if ptr.offset + len > a.bytes@.len() {
            Result::Err(EncodeError::OutOfBounds { alloc_id: ptr.alloc_id })
        } else if range_relocated(a, ptr.offset as int, len) {
            Result::Err(EncodeError::Relocated { alloc_id: ptr.alloc_id })
        } else {
            Result::Ok(a.bytes@.subrange(ptr.offset as int, ptr.offset + len))
        }
    }
}

/// What forcing an array-length constant yields: the evaluated scalar, read
/// as an unsigned value of the native size type.
pub open spec fn arraylen_spec(ctx: Ctx, c: Const) -> Result<nat, EncodeError> {
    let ev = match c.val {
        ConstVal::Unevaluated(d, s) => eval_spec(ctx, d, s@),
        v => Result::Ok(v),
    };
    match ev {
        Result::Ok(v) => match v {
            ConstVal::Bits { size, bits } => if bits <= usize::MAX as u128 {
                Result::Ok(bits as nat)
            } else {
                Result::Err(EncodeError::LenTooBig)
            },
            _ => Result::Err(EncodeError::LenNonScalar),
        },
        Result::Err(e) => Result::Err(e),
    }
}

/// Raw bytes as a document value: an array of byte numbers.
pub open spec fn bytes_jval(s: Seq<u8>) -> JVal {
    JVal::Arr(s.map_values(|b: u8| JVal::Num(b as nat)))
}

/// What rendering a constant of type `t` from its scalar bits and/or its
/// pointer yields: the literal field's key and value, or nothing for a
/// shape that has no literal form.
pub open spec fn render_enc(
    ctx: Ctx,
    t: Ty,
    scalar: Option<(u8, u128)>,
    ptr: Option<Pointer>,
) -> Result<Option<(Seq<char>, JVal)>, EncodeError> {
    match t {
        Ty::Int(_) => match scalar {
            Option::Some((size, bits)) => if 1 <= size <= 16 {
                Result::Ok(
                    Option::Some(
                        ("int_val"@, JVal::Str(int_str(sign_ext_val(size as nat, bits)))),
                    ),
                )
            } else {
                Result::Err(EncodeError::BadScalarSize)
            },
            Option::None => Result::Err(EncodeError::ScalarMissing),
        },
        Ty::Bool => render_unsigned_enc(scalar),
        Ty::Char => render_unsigned_enc(scalar),
        Ty::Uint(_) => render_unsigned_enc(scalar),
        Ty::Float(k) => match scalar {
            Option::Some((size, bits)) => match k {
                FloatKind::F32Kind => Result::Ok(
                    Option::Some(
                        ("float_val"@, JVal::FloatBits(false, (bits % 0x100000000) as nat)),
                    ),
                ),
                FloatKind::F64Kind => Result::Ok(
                    Option::Some(
                        (
                            "float_val"@,
                            JVal::FloatBits(true, (bits % 0x10000000000000000) as nat),
                        ),
                    ),
                ),
            },
            Option::None => Result::Err(EncodeError::ScalarMissing),
        },
        Ty::Ref(inner, Mutability::MutImmutable) => match *inner {
            Ty::Str => match ptr {
                Option::Some(p) => match scalar {
                    Option::Some((size, len_bits)) => if len_bits <= usize::MAX as u128 {
                        match read_mem_spec(ctx, p, len_bits as int) {
                            Result::Ok(mem) => Result::Ok(
                                Option::Some(("str_val"@, bytes_jval(mem))),
                            ),
                            Result::Err(e) => Result::Err(e),
                        }
                    } else {
                        Result::Err(EncodeError::LenTooBig)
                    },
                    Option::None => Result::Err(EncodeError::ScalarMissing),
                },
                Option::None => Result::Err(EncodeError::PointerMissing),
            },
            Ty::Array(elem, len_const) => match *elem {
                Ty::Uint(UintKind::U8) => match arraylen_spec(ctx, *len_const) {
                    Result::Ok(len) => match ptr {
                        Option::Some(p) => match read_mem_spec(ctx, p, len as int) {
                            Result::Ok(mem) => Result::Ok(
                                Option::Some(("bstr_val"@, bytes_jval(mem))),
                            ),
                            Result::Err(e) => Result::Err(e),
                        },
                        Option::None => Result::Err(EncodeError::PointerMissing),
                    },
                    Result::Err(e) => Result::Err(e),
                },
                _ => Result::Ok(Option::None),
            },
            _ => Result::Ok(Option::None),
        },
        _ => Result::Ok(Option::None),
    }
}

/// The unsigned rendering shared by booleans, characters and unsigned
/// integers: the full bit pattern in decimal.
pub open spec fn render_unsigned_enc(scalar: Option<(u8, u128)>) -> Result<
    Option<(Seq<char>, JVal)>,
    EncodeError,
> {
    match scalar {
        Option::Some((size, bits)) => Result::Ok(
            Option::Some(("int_val"@, JVal::Str(dec_str(bits as nat)))),
        ),
        Option::None => Result::Err(EncodeError::ScalarMissing),
    }
}

/// The initializer record of a not-yet-evaluated constant, if it has one.
pub open spec fn initializer_enc(ctx: Ctx, v: ConstVal, used: Seq<DefId>) -> (
    Result<Option<JVal>, EncodeError>,
    Seq<DefId>,
)
    decreases v,
{
    match v {
        ConstVal::Unevaluated(d, s) => {
            let (r, u) = substs_enc(ctx, s@, used);
            match r {
                Result::Ok(items) => (
                    Result::Ok(
                        Option::Some(
                            obj2(
                                "def_id"@,
                                JVal::Str(ctx.path_of(d)),
                                "substs"@,
                                JVal::Arr(items),
                            ),
                        ),
                    ),
                    u,
                ),
                Result::Err(e) => (Result::Err(e), u),
            }
        },
        _ => (Result::Ok(Option::None), used),
    }
}

/// The record for one constant: its kind tag and type, its initializer where
/// it has one, and at most one rendered literal field.
pub open spec fn const_enc(ctx: Ctx, c: Const, used: Seq<DefId>) -> Enc
    decreases c,
{
    let (r0, u0) = ty_enc(ctx, c.ty, used);
    match r0 {
        Result::Err(e) => (Result::Err(e), u0),
        Result::Ok(tyv) => {
            let (ri, u1) = initializer_enc(ctx, c.val, u0);
            match ri {
                Result::Err(e) => (Result::Err(e), u1),
                Result::Ok(init) => {
                    let base = seq![("kind"@, JVal::Str("Const"@)), ("ty"@, tyv)];
                    let fields = match init {
                        Option::Some(iv) => base.push(("initializer"@, iv)),
                        Option::None => base,
                    };
                    let ev = match c.val {
                        ConstVal::Unevaluated(d, s) => eval_spec(ctx, d, s@),
                        v => Result::Ok(v),
                    };
                    match ev {
                        Result::Err(e) => (Result::Err(e), u1),
                        Result::Ok(v) => {
                            let rendered = match v {
                                ConstVal::Bits { size, bits } => render_enc(
                                    ctx,
                                    c.ty,
                                    Option::Some((size, bits)),
                                    Option::None,
                                ),
                                ConstVal::Ptr(p) => render_enc(
                                    ctx,
                                    c.ty,
                                    Option::None,
                                    Option::Some(p),
                                ),
                                ConstVal::PtrBits { ptr, size, bits } => render_enc(
                                    ctx,
                                    c.ty,
                                    Option::Some((size, bits)),
                                    Option::Some(ptr),
                                ),
                                _ => Result::Ok(Option::None),
                            };
                            match rendered {
                                Result::Err(e) => (Result::Err(e), u1),
                                Result::Ok(Option::None) => (
                                    Result::Ok(JVal::Obj(fields)),
                                    u1,
                                ),
                                Result::Ok(Option::Some((k, lit))) => (
                                    Result::Ok(JVal::Obj(fields.push((k, lit)))),
                                    u1,
                                ),
                            }
                        },
                    }
                },
            }
        },
    }
}

/// Forces the constant defined by `def_id` at `substs`: resolves the key in
/// the context's evaluation table and hands back the recorded value.
/// Failing to resolve is reported, naming the definition.
pub fn do_const_eval<'a>(ctx: &'a Ctx, def_id: DefId, substs: &Vec<Subst>) -> (r: Result<
    &'a ConstVal,
    EncodeError,
>)
    ensures
        match r {
            Result::Ok(v) => eval_spec(*ctx, def_id, substs@) == Result::<
                ConstVal,
                EncodeError,
            >::Ok(*v),
            Result::Err(e) => eval_spec(*ctx, def_id, substs@) == Result::<
                ConstVal,
                EncodeError,
            >::Err(e),
        },
{
    let n = ctx.instances.len();
    let mut i: usize = 0;
    proof {
        assert(ctx.instances@.skip(0) =~= ctx.instances@);
    }
    while i < n
        invariant
            n == ctx.instances@.len(),
            i <= n,
            first_match(ctx.instances@, def_id, substs@) == first_match(
                ctx.instances@.skip(i as int),
                def_id,
                substs@,
            ),
        decreases n - i,
    {
        let inst = &ctx.instances[i];
        proof {
            assert(ctx.instances@.skip(i as int)[0] == ctx.instances@[i as int]);
            assert(ctx.instances@.skip(i as int).drop_first() =~= ctx.instances@.skip(i + 1));
        }
        if inst.def_id == def_id && substs_eq(&inst.substs, substs) {
            return Result::Ok(&ctx.instances[i].val);
        }
        i = i + 1;
    }
    proof {
        assert(ctx.instances@.skip(n as int) =~= Seq::<crate::ir::Instance>::empty());
    }
    Result::Err(EncodeError::EvalFailed { def_id })
}

/// Reads a byte range out of one allocation in the global constant table.
/// The range must lie inside the allocation and no embedded pointer may
/// touch it; either violation is reported, naming the allocation.
pub fn read_static_memory(ctx: &Ctx, ptr: Pointer, len: usize) -> (r: Result<Vec<u8>, EncodeError>)
    ensures
        match r {
            Result::Ok(v) => read_mem_spec(*ctx, ptr, len as int) == Result::<
                Seq<u8>,
                EncodeError,
            >::Ok(v@),
            Result::Err(e) => read_mem_spec(*ctx, ptr, len as int) == Result::<
                Seq<u8>,
                EncodeError,
            >::Err(e),
        },
{
    if ptr.alloc_id >= ctx.allocs.len() {
        return Result::Err(EncodeError::NoAlloc { alloc_id: ptr.alloc_id });
    }
    let a = &ctx.allocs[ptr.alloc_id];
    if ptr.offset > a.bytes.len() || len > a.bytes.len() - ptr.offset {
        return Result::Err(EncodeError::OutOfBounds { alloc_id: ptr.alloc_id });
    }
    let end = ptr.offset + len;
    let ghost ga = ctx.allocs@[ptr.alloc_id as int];
    let mut i: usize = 0;
    while i < a.relocations.len()
        invariant
            i <= a.relocations@.len(),
            forall|k: int|
                0 <= k < i ==> !(ptr.offset <= #[trigger] a.relocations@[k] < ptr.offset
                    + len),
            end == ptr.offset + len,
            ptr.offset + len <= ga.bytes@.len(),
            a.relocations@ == ga.relocations@,
            ptr.alloc_id < ctx.allocs@.len(),
            ga == ctx.allocs@[ptr.alloc_id as int],
        decreases a.relocations@.len() - i,
    {
        let off = a.relocations[i];
        if off >= ptr.offset && off < end {
            proof {
                assert(ptr.offset <= ga.relocations@[i as int] < ptr.offset + len);
                assert(range_relocated(ga, ptr.offset as int, len as int));
            }
            return Result::Err(EncodeError::Relocated { alloc_id: ptr.alloc_id });
        }
        i = i + 1;
    }
    proof {
        if range_relocated(ga, ptr.offset as int, len as int) {
            let w = choose|w: int|
                0 <= w < ga.relocations@.len() && ptr.offset <= #[trigger] ga.relocations@[w]
                    < ptr.offset + len;
            assert(false);
        }
    }
    let mut out: Vec<u8> = Vec::new();
    let mut j: usize = 0;
    while j < len
        invariant
            j <= len,
            end == ptr.offset + len,
            ptr.offset + len <= a.bytes@.len(),
            out@ =~= a.bytes@.subrange(ptr.offset as int, ptr.offset + j),
            a.bytes@ == ga.bytes@,
        decreases len - j,
    {
        out.push(a.bytes[ptr.offset + j]);
        j = j + 1;
        proof {
            assert(out@ =~= a.bytes@.subrange(ptr.offset as int, ptr.offset + j));
        }
    }
    Result::Ok(out)
}

/// Forces an array-length constant and reads the result as an unsigned
/// value of the native size type; a value above that range is reported.
pub fn eval_array_len(ctx: &Ctx, c: &Const) -> (r: Result<usize, EncodeError>)
    ensures
        match r {
            Result::Ok(l) => arraylen_spec(*ctx, *c) == Result::<nat, EncodeError>::Ok(l as nat),
            Result::Err(e) => arraylen_spec(*ctx, *c) == Result::<nat, EncodeError>::Err(e),
        },
{
    let ev: &ConstVal = match &c.val {
        ConstVal::Unevaluated(d, s) => match do_const_eval(ctx, *d, s) {
            Result::Ok(v) => v,
            Result::Err(e) => {
                return Result::Err(e);
            },
        },
        v => v,
    };
    match ev {
        ConstVal::Bits { size: _, bits } => {
            if *bits <= (usize::MAX as u128) {
                Result::Ok(*bits as usize)
            } else {
                Result::Err(EncodeError::LenTooBig)
            }
        },
        _ => Result::Err(EncodeError::LenNonScalar),
    }
}

/// Raw bytes as a document value.
pub fn bytes_json(v: &Vec<u8>) -> (r: JsonValue)
    ensures
        r@ == bytes_jval(v@),
{
    let mut out: Vec<JsonValue> = Vec::new();
    let mut i: usize = 0;
    while i < v.len()
        invariant
            i <= v@.len(),
            out@.len() == i as int,
            forall|k: int| 0 <= k < i ==> out@[k] == JsonValue::Num(v@[k] as u128),
        decreases v@.len() - i,
    {
        out.push(JsonValue::Num(v[i] as u128));
        i = i + 1;
    }
    proof {
        lemma_jvals_of_pointwise(out@);
        assert(jvals_of(out@) =~= v@.map_values(|b: u8| JVal::Num(b as nat)));
    }
    JsonValue::Arr(out)
}

/// Renders a constant of type `ty` from its scalar bits and/or pointer into
/// its literal field, where its type has a literal form.
pub fn render_constant(
    ctx: &Ctx,
    ty: &Ty,
    scalar: Option<(u8, u128)>,
    ptr: Option<Pointer>,
) -> (r: Result<Option<(String, JsonValue)>, EncodeError>)
    ensures
        match r {
            Result::Ok(Option::Some((k, v))) => render_enc(*ctx, *ty, scalar, ptr) == Result::<
                Option<(Seq<char>, JVal)>,
                EncodeError,
            >::Ok(Option::Some((k@, v@))),
            Result::Ok(Option::None) => render_enc(*ctx, *ty, scalar, ptr) == Result::<
                Option<(Seq<char>, JVal)>,
                EncodeError,
            >::Ok(Option::None),
            Result::Err(e) => render_enc(*ctx, *ty, scalar, ptr) == Result::<
                Option<(Seq<char>, JVal)>,
                EncodeError,
            >::Err(e),
        },
{
    match ty {
        Ty::Int(_) => match scalar {
            Option::Some((size, bits)) => {
                if 1 <= size && size <= 16 {
                    Result::Ok(
                        Option::Some(("int_val".to_owned(), JsonValue::Str(render_signed(size, bits)))),
                    )
                } else {
                    Result::Err(EncodeError::BadScalarSize)
                }
            },
            Option::None => Result::Err(EncodeError::ScalarMissing),
        },
        Ty::Bool => render_unsigned(scalar),
        Ty::Char => render_unsigned(scalar),
        Ty::Uint(_) => render_unsigned(scalar),
        Ty::Float(k) => match scalar {
            Option::Some((size, bits)) => match k {
                FloatKind::F32Kind => {
                    let low = bits % 0x100000000;
                    Result::Ok(
                        Option::Some(
                            ("float_val".to_owned(), JsonValue::FloatBits(false, low as u64)),
                        ),
                    )
                },
                FloatKind::F64Kind => {
                    let low = bits % 0x10000000000000000;
                    Result::Ok(
                        Option::Some(
                            ("float_val".to_owned(), JsonValue::FloatBits(true, low as u64)),
                        ),
                    )
                },
            },
            Option::None => Result::Err(EncodeError::ScalarMissing),
        },
        Ty::Ref(inner, Mutability::MutImmutable) => match &**inner {
            Ty::Str => match ptr {
                Option::Some(p) => match scalar {
                    Option::Some((_size, len_bits)) => {
                        if len_bits <= (usize::MAX as u128) {
                            match read_static_memory(ctx, p, len_bits as usize) {
                                Result::Ok(mem) => Result::Ok(
                                    Option::Some(("str_val".to_owned(), bytes_json(&mem))),
                                ),
                                Result::Err(e) => Result::Err(e),
                            }
                        } else {
                            Result::Err(EncodeError::LenTooBig)
                        }
                    },
                    Option::None => Result::Err(EncodeError::ScalarMissing),
                },
                Option::None => Result::Err(EncodeError::PointerMissing),
            },
            Ty::Array(elem, len_const) => match &**elem {
                Ty::Uint(UintKind::U8) => match eval_array_len(ctx, &*len_const) {
                    Result::Ok(len) => match ptr {
                        Option::Some(p) => match read_static_memory(ctx, p, len) {
                            Result::Ok(mem) => Result::Ok(
                                Option::Some(("bstr_val".to_owned(), bytes_json(&mem))),
                            ),
                            Result::Err(e) => Result::Err(e),
                        },
                        Option::None => Result::Err(EncodeError::PointerMissing),
                    },
                    Result::Err(e) => Result::Err(e),
                },
                _ => Result::Ok(Option::None),
            },
            _ => Result::Ok(Option::None),
        },
        _ => Result::Ok(Option::None),
    }
}

/// Encodes one constant: its kind tag and type, its initializer where it is
/// not yet evaluated, and — after forcing it — at most one rendered literal
/// field among `int_val`, `float_val`, `str_val` and `bstr_val`.
#[verifier::rlimit(60)]
pub fn const_json(ctx: &Ctx, used: &mut Vec<DefId>, c: &Const) -> (r: Result<
    JsonValue,
    EncodeError,
>)
    requires
        crate::ir::const_wf(ctx.n(), *c),
    ensures
        res_view(r) == const_enc(*ctx, *c, old(used)@).0,
        final(used)@ == const_enc(*ctx, *c, old(used)@).1,
    decreases *c,
{
    let ghost ctx0 = *ctx;
    let ghost used0 = old(used)@;
    let tyv = match ty_json(ctx, used, &c.ty) {
        Result::Ok(v) => v,
        Result::Err(e) => {
            return Result::Err(e);
        },
    };
    let ghost gtyv = tyv@;
    let mut fields: Vec<(String, JsonValue)> = Vec::new();
    obj_field(&mut fields, "kind", JsonValue::Str("Const".to_owned()));
    obj_field(&mut fields, "ty", tyv);
    match &c.val {
        ConstVal::Unevaluated(d, s) => {
            let name = defid_str(ctx, *d);
            let items = match substs_json(ctx, used, s) {
                Result::Ok(items) => items,
                Result::Err(e) => {
                    return Result::Err(e);
                },
            };
            obj_field(
                &mut fields,
                "initializer",
                obj2_json("def_id", JsonValue::Str(name), "substs", JsonValue::Arr(items)),
            );
        },
        _ => {},
    }
    proof {
        if c.val is Unevaluated {
            assert(jfields_of(fields@) =~= seq![
                ("kind"@, JVal::Str("Const"@)),
                ("ty"@, gtyv),
            ].push(
                (
                    "initializer"@,
                    initializer_enc(ctx0, c.val, ty_enc(ctx0, c.ty, used0).1).0->Ok_0->Some_0,
                ),
            ));
        } else {
            assert(jfields_of(fields@) =~= seq![("kind"@, JVal::Str("Const"@)), ("ty"@, gtyv)]);
        }
    }
    let ev: &ConstVal = match &c.val {
        ConstVal::Unevaluated(d, s) => match do_const_eval(ctx, *d, s) {
            Result::Ok(v) => v,
            Result::Err(e) => {
                return Result::Err(e);
            },
        },
        v => v,
    };
    let rendered = match ev {
        ConstVal::Bits { size, bits } => render_constant(
            ctx,
            &c.ty,
            Option::Some((*size, *bits)),
            Option::None,
        ),
        ConstVal::Ptr(p) => render_constant(ctx, &c.ty, Option::None, Option::Some(*p)),
        ConstVal::PtrBits { ptr, size, bits } => render_constant(
            ctx,
            &c.ty,
            Option::Some((*size, *bits)),
            Option::Some(*ptr),
        ),
        _ => Result::Ok(Option::None),
    };
    match rendered {
        Result::Err(e) => Result::Err(e),
        Result::Ok(Option::None) => Result::Ok(JsonValue::Obj(fields)),
        Result::Ok(Option::Some((k, lit))) => {
            let ghost glit = lit@;
            let ghost gk = k@;
            let ghost pre = fields@;
            fields.push((k, lit));
            proof {
                crate::json::lemma_jfields_of_push(pre, fields@.last());
                assert(fields@.drop_last() =~= pre);
            }
            Result::Ok(JsonValue::Obj(fields))
        },
    }
}

fn render_unsigned(scalar: Option<(u8, u128)>) -> (r: Result<
    Option<(String, JsonValue)>,
    EncodeError,
>)
    ensures
        match r {
            Result::Ok(Option::Some((k, v))) => render_unsigned_enc(scalar) == Result::<
                Option<(Seq<char>, JVal)>,
                EncodeError,
            >::Ok(Option::Some((k@, v@))),
            Result::Ok(Option::None) => render_unsigned_enc(scalar) == Result::<
                Option<(Seq<char>, JVal)>,
                EncodeError,
            >::Ok(Option::None),
            Result::Err(e) => render_unsigned_enc(scalar) == Result::<
                Option<(Seq<char>, JVal)>,
                EncodeError,
            >::Err(e),
        },
{
    match scalar {
        Option::Some((_size, bits)) => Result::Ok(
            Option::Some(("int_val".to_owned(), JsonValue::Str(u128_to_dec(bits)))),
        ),
        Option::None => Result::Err(EncodeError::ScalarMissing),
    }
}

} // verus!
