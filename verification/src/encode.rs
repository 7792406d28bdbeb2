//! The encoders: from modelled representation nodes to document values.
//!
//! Each encoder is specified by a function that maps the context, the node
//! and the used-types table to the produced record and the updated table.
//! A failure is a typed value naming what went wrong, never an abort: an
//! unrecognised node kind degrades to a placeholder record instead.

use vstd::prelude::*;
use crate::ir::{
    BorrowKind, Ctx, CtorKind, DefId, FloatKind, FnSig, IntKind, Mutability, ParamDef, Predicate,
    ProjectionTy, Subst, TraitRef, Ty, UintKind, pred_wf, pty_wf, sig_wf, subst_wf, substs_wf,
    trait_ref_wf, ty_wf, tys_wf,
};
use crate::json::{JVal, JsonValue, jfields_of, jvals_of, lemma_jvals_of_push, obj_field};
use crate::consts::{const_enc, const_json};

verus! {

/// Why an encoding stopped. Evaluation failures name the definition whose
/// constant could not be forced, so a caller can report it.
#[derive(Clone, Copy, PartialEq, Eq, Structural, Debug)]
pub enum EncodeError {
    /// No recorded evaluation answers the (definition, substitution) key.
    EvalFailed { def_id: DefId },
    /// A constant that needs a scalar value had none.
    ScalarMissing,
    /// A constant that needs a pointer value had none.
    PointerMissing,
    /// A scalar's byte width is zero or above sixteen.
    BadScalarSize,
    /// A length does not fit the native size type.
    LenTooBig,
    /// An array length evaluated to something other than a scalar.
    LenNonScalar,
    /// The allocation id names no allocation.
    NoAlloc { alloc_id: usize },
    /// The requested byte range leaves the allocation.
    OutOfBounds { alloc_id: usize },
    /// A relocation (an embedded pointer) touches the requested range.
    Relocated { alloc_id: usize },
}

/// What one fallible encoding step yields: the record or the error, plus
/// the used-types table as the step leaves it.
pub type Enc = (Result<JVal, EncodeError>, Seq<DefId>);

/// The view of an executable encoding result.
pub open spec fn res_view(r: Result<JsonValue, EncodeError>) -> Result<JVal, EncodeError> {
    match r {
        Result::Ok(v) => Result::Ok(v@),
        Result::Err(e) => Result::Err(e),
    }
}

/// Records one referenced aggregate, keeping the table duplicate-free.
pub open spec fn insert_new(used: Seq<DefId>, d: DefId) -> Seq<DefId> {
    if used.contains(d) {
        used
    } else {
        used.push(d)
    }
}

pub open spec fn obj1(k1: Seq<char>, v1: JVal) -> JVal {
    JVal::Obj(seq![(k1, v1)])
}

pub open spec fn obj2(k1: Seq<char>, v1: JVal, k2: Seq<char>, v2: JVal) -> JVal {
    JVal::Obj(seq![(k1, v1), (k2, v2)])
}

pub open spec fn obj3(
    k1: Seq<char>,
    v1: JVal,
    k2: Seq<char>,
    v2: JVal,
    k3: Seq<char>,
    v3: JVal,
) -> JVal {
    JVal::Obj(seq![(k1, v1), (k2, v2), (k3, v3)])
}

pub open spec fn obj4(
    k1: Seq<char>,
    v1: JVal,
    k2: Seq<char>,
    v2: JVal,
    k3: Seq<char>,
    v3: JVal,
    k4: Seq<char>,
    v4: JVal,
) -> JVal {
    JVal::Obj(seq![(k1, v1), (k2, v2), (k3, v3), (k4, v4)])
}

pub open spec fn intkind_str(k: IntKind) -> Seq<char> {
    match k {
        IntKind::Isize => "Isize"@,
        IntKind::I8 => "I8"@,
        IntKind::I16 => "I16"@,
        IntKind::I32 => "I32"@,
        IntKind::I64 => "I64"@,
        IntKind::I128 => "I128"@,
    }
}

pub open spec fn uintkind_str(k: UintKind) -> Seq<char> {
    match k {
        UintKind::Usize => "Usize"@,
        UintKind::U8 => "U8"@,
        UintKind::U16 => "U16"@,
        UintKind::U32 => "U32"@,
        UintKind::U64 => "U64"@,
        UintKind::U128 => "U128"@,
    }
}

pub open spec fn floatkind_str(k: FloatKind) -> Seq<char> {
    match k {
        FloatKind::F32Kind => "F32"@,
        FloatKind::F64Kind => "F64"@,
    }
}

pub open spec fn mutability_str(m: Mutability) -> Seq<char> {
    match m {
        Mutability::MutMutable => "MutMutable"@,
        Mutability::MutImmutable => "MutImmutable"@,
    }
}

pub open spec fn ctor_kind_str(k: CtorKind) -> Seq<char> {
    match k {
        CtorKind::FnCtor => "Fn"@,
        CtorKind::ConstCtor => "Const"@,
        CtorKind::Fictive => "Fictive"@,
    }
}

pub open spec fn borrow_kind_str(k: BorrowKind) -> Seq<char> {
    match k {
        BorrowKind::Shared => "Shared"@,
        BorrowKind::Shallow => "Shallow"@,
        BorrowKind::Unique => "Unique"@,
        BorrowKind::MutBorrow => "Mut"@,
    }
}

/// The record for one type reference. An `Adt` node records its definition
/// into the used-types table and emits only the identifier and the
/// substitution: never variant or field data.
pub open spec fn ty_enc(ctx: Ctx, t: Ty, used: Seq<DefId>) -> Enc
    decreases t,
{
    match t {
        Ty::Bool => (Result::Ok(obj1("kind"@, JVal::Str("Bool"@))), used),
        Ty::Char => (Result::Ok(obj1("kind"@, JVal::Str("Char"@))), used),
        Ty::Int(k) => (
            Result::Ok(
                obj2("kind"@, JVal::Str("Int"@), "intkind"@, JVal::Str(intkind_str(k))),
            ),
            used,
        ),
        Ty::Uint(k) => (
            Result::Ok(
                obj2("kind"@, JVal::Str("Uint"@), "uintkind"@, JVal::Str(uintkind_str(k))),
            ),
            used,
        ),
        Ty::Float(k) => (
            Result::Ok(
                obj2("kind"@, JVal::Str("Float"@), "size"@, JVal::Str(floatkind_str(k))),
            ),
            used,
        ),
        Ty::Str => (Result::Ok(obj1("kind"@, JVal::Str("Str"@))), used),
        Ty::Tuple(tys) => {
            let (r, u) = tys_enc(ctx, tys@, used);
            match r {
                Result::Ok(items) => (
                    Result::Ok(obj2("kind"@, JVal::Str("Tuple"@), "tys"@, JVal::Arr(items))),
                    u,
                ),
                Result::Err(e) => (Result::Err(e), u),
            }
        },
        Ty::Slice(t2) => {
            let (r, u) = ty_enc(ctx, *t2, used);
            match r {
                Result::Ok(v) => (
                    Result::Ok(obj2("kind"@, JVal::Str("Slice"@), "ty"@, v)),
                    u,
                ),
                Result::Err(e) => (Result::Err(e), u),
            }
        },
        Ty::Array(t2, c) => {
            let (r1, u1) = ty_enc(ctx, *t2, used);
            match r1 {
                Result::Ok(v1) => {
                    let (r2, u2) = const_enc(ctx, *c, u1);
                    match r2 {
                        Result::Ok(v2) => (
                            Result::Ok(
                                obj3("kind"@, JVal::Str("Array"@), "ty"@, v1, "size"@, v2),
                            ),
                            u2,
                        ),
                        Result::Err(e) => (Result::Err(e), u2),
                    }
                },
                Result::Err(e) => (Result::Err(e), u1),
            }
        },
        Ty::Ref(t2, m) => {
            let (r, u) = ty_enc(ctx, *t2, used);
            match r {
                Result::Ok(v) => (
                    Result::Ok(
                        obj3(
                            "kind"@,
                            JVal::Str("Ref"@),
                            "ty"@,
                            v,
                            "mutability"@,
                            JVal::Str(mutability_str(m)),
                        ),
                    ),
                    u,
                ),
                Result::Err(e) => (Result::Err(e), u),
            }
        },
        Ty::RawPtr(t2, m) => {
            let (r, u) = ty_enc(ctx, *t2, used);
            match r {
                Result::Ok(v) => (
                    Result::Ok(
                        obj3(
                            "kind"@,
                            JVal::Str("RawPtr"@),
                            "ty"@,
                            v,
                            "mutability"@,
                            JVal::Str(mutability_str(m)),
                        ),
                    ),
                    u,
                ),
                Result::Err(e) => (Result::Err(e), u),
            }
        },
        Ty::Adt(d, s) => {
            let (r, u) = substs_enc(ctx, s@, insert_new(used, d));
            match r {
                Result::Ok(items) => (
                    Result::Ok(
                        obj3(
                            "kind"@,
                            JVal::Str("Adt"@),
                            "name"@,
                            JVal::Str(ctx.path_of(d)),
                            "substs"@,
                            JVal::Arr(items),
                        ),
                    ),
                    u,
                ),
                Result::Err(e) => (Result::Err(e), u),
            }
        },
        Ty::FnDef(d, s) => {
            let (r, u) = substs_enc(ctx, s@, used);
            match r {
                Result::Ok(items) => (
                    Result::Ok(
                        obj3(
                            "kind"@,
                            JVal::Str("FnDef"@),
                            "defid"@,
                            JVal::Str(ctx.path_of(d)),
                            "substs"@,
                            JVal::Arr(items),
                        ),
                    ),
                    u,
                ),
                Result::Err(e) => (Result::Err(e), u),
            }
        },
        Ty::FnPtr(sig) => {
            let (r, u) = sig_enc(ctx, sig, used);
            match r {
                Result::Ok(v) => (
                    Result::Ok(obj2("kind"@, JVal::Str("FnPtr"@), "signature"@, v)),
                    u,
                ),
                Result::Err(e) => (Result::Err(e), u),
            }
        },
        Ty::Closure(d, s) => {
            let (r, u) = substs_enc(ctx, s@, used);
            match r {
                Result::Ok(items) => (
                    Result::Ok(
                        obj3(
                            "kind"@,
                            JVal::Str("Closure"@),
                            "defid"@,
                            JVal::Str(ctx.path_of(d)),
                            "closuresubsts"@,
                            JVal::Arr(items),
                        ),
                    ),
                    u,
                ),
                Result::Err(e) => (Result::Err(e), u),
            }
        },
        Ty::Dynamic(d) => (
            Result::Ok(
                obj2("kind"@, JVal::Str("Dynamic"@), "data"@, JVal::Str(ctx.path_of(d))),
            ),
            used,
        ),
        Ty::Projection(p) => {
            let (r, u) = substs_enc(ctx, p.substs@, used);
            match r {
                Result::Ok(items) => (
                    Result::Ok(
                        obj3(
                            "kind"@,
                            JVal::Str("Projection"@),
                            "substs"@,
                            JVal::Arr(items),
                            "defid"@,
                            JVal::Str(ctx.path_of(p.item_def_id)),
                        ),
                    ),
                    u,
                ),
                Result::Err(e) => (Result::Err(e), u),
            }
        },
        Ty::UnnormalizedProjection(p) => {
            let (r, u) = substs_enc(ctx, p.substs@, used);
            match r {
                Result::Ok(items) => (
                    Result::Ok(
                        obj3(
                            "kind"@,
                            JVal::Str("UnnormalizedProjection"@),
                            "substs"@,
                            JVal::Arr(items),
                            "defid"@,
                            JVal::Str(ctx.path_of(p.item_def_id)),
                        ),
                    ),
                    u,
                ),
                Result::Err(e) => (Result::Err(e), u),
            }
        },
        Ty::Param(i) => (
            Result::Ok(obj2("kind"@, JVal::Str("Param"@), "param"@, JVal::Num(i as nat))),
            used,
        ),
        Ty::Never => (Result::Ok(obj1("kind"@, JVal::Str("Never"@))), used),
        Ty::Error => (Result::Ok(obj1("kind"@, JVal::Str("Error"@))), used),
        Ty::Infer => (Result::Ok(obj1("kind"@, JVal::Str("Infer"@))), used),
        Ty::Foreign => (Result::Ok(obj1("kind"@, JVal::Str("Foreign"@))), used),
        Ty::Generator => (Result::Ok(obj1("kind"@, JVal::Str("Generator"@))), used),
        Ty::GeneratorWitness => (Result::Ok(obj1("kind"@, JVal::Str("GeneratorWitness"@))), used),
        Ty::Opaque => (Result::Ok(obj1("kind"@, JVal::Str("Opaque"@))), used),
    }
}

/// Encodes a sequence of types in order, stopping at the first failure.
pub open spec fn tys_enc(ctx: Ctx, s: Seq<Ty>, used: Seq<DefId>) -> (
    Result<Seq<JVal>, EncodeError>,
    Seq<DefId>,
)
    decreases s,
{
    if s.len() == 0 {
        (Result::Ok(Seq::empty()), used)
    } else {
        let (r0, u0) = tys_enc(ctx, s.drop_last(), used);
        match r0 {
            Result::Ok(pre) => {
                let (r1, u1) = ty_enc(ctx, s.last(), u0);
                match r1 {
                    Result::Ok(v) => (Result::Ok(pre.push(v)), u1),
                    Result::Err(e) => (Result::Err(e), u1),
                }
            },
            Result::Err(e) => (Result::Err(e), u0),
        }
    }
}

/// One generic argument: a type encodes as itself, an elided lifetime as a
/// marker record.
pub open spec fn subst_enc(ctx: Ctx, su: Subst, used: Seq<DefId>) -> Enc
    decreases su,
{
    match su {
        Subst::TyArg(t) => ty_enc(ctx, t, used),
        Subst::Lifetime => (Result::Ok(obj1("kind"@, JVal::Str("Lifetime"@))), used),
    }
}

pub open spec fn substs_enc(ctx: Ctx, s: Seq<Subst>, used: Seq<DefId>) -> (
    Result<Seq<JVal>, EncodeError>,
    Seq<DefId>,
)
    decreases s,
{
    if s.len() == 0 {
        (Result::Ok(Seq::empty()), used)
    } else {
        let (r0, u0) = substs_enc(ctx, s.drop_last(), used);
        match r0 {
            Result::Ok(pre) => {
                let (r1, u1) = subst_enc(ctx, s.last(), u0);
                match r1 {
                    Result::Ok(v) => (Result::Ok(pre.push(v)), u1),
                    Result::Err(e) => (Result::Err(e), u1),
                }
            },
            Result::Err(e) => (Result::Err(e), u0),
        }
    }
}

/// A function signature: its inputs in order, then its output.
pub open spec fn sig_enc(ctx: Ctx, sig: FnSig, used: Seq<DefId>) -> Enc
    decreases sig,
{
    let (r0, u0) = tys_enc(ctx, sig.inputs@, used);
    match r0 {
        Result::Ok(items) => {
            let (r1, u1) = ty_enc(ctx, *sig.output, u0);
            match r1 {
                Result::Ok(v) => (
                    Result::Ok(obj2("inputs"@, JVal::Arr(items), "output"@, v)),
                    u1,
                ),
                Result::Err(e) => (Result::Err(e), u1),
            }
        },
        Result::Err(e) => (Result::Err(e), u0),
    }
}

/// A projection, as predicates reference it.
pub open spec fn pty_enc(ctx: Ctx, p: ProjectionTy, used: Seq<DefId>) -> Enc
    decreases p,
{
    let (r, u) = substs_enc(ctx, p.substs@, used);
    match r {
        Result::Ok(items) => (
            Result::Ok(
                obj2(
                    "substs"@,
                    JVal::Arr(items),
                    "item_def_id"@,
                    JVal::Str(ctx.path_of(p.item_def_id)),
                ),
            ),
            u,
        ),
        Result::Err(e) => (Result::Err(e), u),
    }
}

/// A trait reference: the trait's identifier and the instantiation.
pub open spec fn trait_ref_enc(ctx: Ctx, tr: TraitRef, used: Seq<DefId>) -> Enc
    decreases tr,
{
    let (r, u) = substs_enc(ctx, tr.substs@, used);
    match r {
        Result::Ok(items) => (
            Result::Ok(
                obj2(
                    "trait"@,
                    JVal::Str(ctx.path_of(tr.def_id)),
                    "substs"@,
                    JVal::Arr(items),
                ),
            ),
            u,
        ),
        Result::Err(e) => (Result::Err(e), u),
    }
}

/// One obligation. A kind the encoder does not model degrades to an opaque
/// placeholder value rather than failing.
pub open spec fn pred_enc(ctx: Ctx, p: Predicate, used: Seq<DefId>) -> Enc
    decreases p,
{
    match p {
        Predicate::Trait(tr) => {
            let (r, u) = trait_ref_enc(ctx, tr, used);
            match r {
                Result::Ok(v) => (Result::Ok(obj1("trait_pred"@, v)), u),
                Result::Err(e) => (Result::Err(e), u),
            }
        },
        Predicate::Projection(pp) => {
            let (r0, u0) = pty_enc(ctx, pp.projection_ty, used);
            match r0 {
                Result::Ok(v0) => {
                    let (r1, u1) = ty_enc(ctx, pp.ty, u0);
                    match r1 {
                        Result::Ok(v1) => (
                            Result::Ok(
                                obj1(
                                    "trait_proj"@,
                                    obj2("projection_ty"@, v0, "ty"@, v1),
                                ),
                            ),
                            u1,
                        ),
                        Result::Err(e) => (Result::Err(e), u1),
                    }
                },
                Result::Err(e) => (Result::Err(e), u0),
            }
        },
        Predicate::Other => (Result::Ok(JVal::Str("unknown_pred"@)), used),
    }
}

pub open spec fn preds_enc(ctx: Ctx, s: Seq<Predicate>, used: Seq<DefId>) -> (
    Result<Seq<JVal>, EncodeError>,
    Seq<DefId>,
)
    decreases s,
{
    if s.len() == 0 {
        (Result::Ok(Seq::empty()), used)
    } else {
        let (r0, u0) = preds_enc(ctx, s.drop_last(), used);
        match r0 {
            Result::Ok(pre) => {
                let (r1, u1) = pred_enc(ctx, s.last(), u0);
                match r1 {
                    Result::Ok(v) => (Result::Ok(pre.push(v)), u1),
                    Result::Err(e) => (Result::Err(e), u1),
                }
            },
            Result::Err(e) => (Result::Err(e), u0),
        }
    }
}

/// The flattened generic parameter list of a definition: the parent's
/// flattened list first, then the definition's own parameters. The position
/// of a parameter in this list is the index a `Param` node resolves by.
pub open spec fn flatten_params(ctx: Ctx, d: DefId) -> Seq<ParamDef>
    decreases d,
{
    let own = ctx.defs@[d as int].own_params@;
    match ctx.defs@[d as int].parent {
        Option::Some(p) => if p < d {
            flatten_params(ctx, p) + own
        } else {
            own
        },
        Option::None => own,
    }
}

/// The flattened predicate list of a definition, composed parent-then-self,
/// in the same order as the generic parameters.
pub open spec fn flatten_preds(ctx: Ctx, d: DefId) -> Seq<Predicate>
    decreases d,
{
    let own = ctx.defs@[d as int].own_preds@;
    match ctx.defs@[d as int].parent {
        Option::Some(p) => if p < d {
            flatten_preds(ctx, p) + own
        } else {
            own
        },
        Option::None => own,
    }
}

/// The record for one generic parameter.
pub open spec fn param_jval(ctx: Ctx, pd: ParamDef) -> JVal {
    obj2("param_def"@, JVal::Str(pd.name@), "def_id"@, JVal::Str(ctx.path_of(pd.def_id)))
}

/// The generics record of a definition: its flattened parameter list.
pub open spec fn generics_jval(ctx: Ctx, d: DefId) -> JVal {
    obj1(
        "params"@,
        JVal::Arr(flatten_params(ctx, d).map_values(|pd: ParamDef| param_jval(ctx, pd))),
    )
}

/// The predicates record of a definition: its flattened obligation list.
pub open spec fn predicates_enc(ctx: Ctx, d: DefId, used: Seq<DefId>) -> Enc {
    let (r, u) = preds_enc(ctx, flatten_preds(ctx, d), used);
    match r {
        Result::Ok(items) => (Result::Ok(obj1("predicates"@, JVal::Arr(items))), u),
        Result::Err(e) => (Result::Err(e), u),
    }
}

/// A failed prefix settles the whole sequence's encoding.
pub proof fn lemma_tys_enc_err_app(ctx: Ctx, a: Seq<Ty>, b: Seq<Ty>, used: Seq<DefId>)
    requires
        tys_enc(ctx, a, used).0 is Err,
    ensures
        tys_enc(ctx, a + b, used) == tys_enc(ctx, a, used),
    decreases b,
{
    if b.len() == 0 {
        assert(a + b =~= a);
    } else {
        assert((a + b).drop_last() =~= a + b.drop_last());
        assert((a + b).last() == b.last());
        lemma_tys_enc_err_app(ctx, a, b.drop_last(), used);
    }
}

pub proof fn lemma_substs_enc_err_app(ctx: Ctx, a: Seq<Subst>, b: Seq<Subst>, used: Seq<DefId>)
    requires
        substs_enc(ctx, a, used).0 is Err,
    ensures
        substs_enc(ctx, a + b, used) == substs_enc(ctx, a, used),
    decreases b,
{
    if b.len() == 0 {
        assert(a + b =~= a);
    } else {
        assert((a + b).drop_last() =~= a + b.drop_last());
        assert((a + b).last() == b.last());
        lemma_substs_enc_err_app(ctx, a, b.drop_last(), used);
    }
}

pub proof fn lemma_preds_enc_err_app(ctx: Ctx, a: Seq<Predicate>, b: Seq<Predicate>, used: Seq<DefId>)
    requires
        preds_enc(ctx, a, used).0 is Err,
    ensures
        preds_enc(ctx, a + b, used) == preds_enc(ctx, a, used),
    decreases b,
{
    if b.len() == 0 {
        assert(a + b =~= a);
    } else {
        assert((a + b).drop_last() =~= a + b.drop_last());
        assert((a + b).last() == b.last());
        lemma_preds_enc_err_app(ctx, a, b.drop_last(), used);
    }
}

/// A string as a document value.
pub fn jstr(s: &str) -> (r: JsonValue)
    ensures
        r@ == JVal::Str(s@),
{
    JsonValue::Str(s.to_owned())
}

/// An object of one field.
pub fn obj1_json(k1: &str, v1: JsonValue) -> (r: JsonValue)
    ensures
        r@ == obj1(k1@, v1@),
{
    let ghost gv1 = v1@;
    let mut o: Vec<(String, JsonValue)> = Vec::new();
    obj_field(&mut o, k1, v1);
    proof {
        assert(jfields_of(o@) =~= seq![(k1@, gv1)]);
    }
    JsonValue::Obj(o)
}

/// An object of two fields.
pub fn obj2_json(k1: &str, v1: JsonValue, k2: &str, v2: JsonValue) -> (r: JsonValue)
    ensures
        r@ == obj2(k1@, v1@, k2@, v2@),
{
    let ghost gv1 = v1@;
    let ghost gv2 = v2@;
    let mut o: Vec<(String, JsonValue)> = Vec::new();
    obj_field(&mut o, k1, v1);
    obj_field(&mut o, k2, v2);
    proof {
        assert(jfields_of(o@) =~= seq![(k1@, gv1), (k2@, gv2)]);
    }
    JsonValue::Obj(o)
}

/// An object of three fields.
pub fn obj3_json(
    k1: &str,
    v1: JsonValue,
    k2: &str,
    v2: JsonValue,
    k3: &str,
    v3: JsonValue,
) -> (r: JsonValue)
    ensures
        r@ == obj3(k1@, v1@, k2@, v2@, k3@, v3@),
{
    let ghost gv1 = v1@;
    let ghost gv2 = v2@;
    let ghost gv3 = v3@;
    let mut o: Vec<(String, JsonValue)> = Vec::new();
    obj_field(&mut o, k1, v1);
    obj_field(&mut o, k2, v2);
    obj_field(&mut o, k3, v3);
    proof {
        assert(jfields_of(o@) =~= seq![(k1@, gv1), (k2@, gv2), (k3@, gv3)]);
    }
    JsonValue::Obj(o)
}

/// An object of four fields.
pub fn obj4_json(
    k1: &str,
    v1: JsonValue,
    k2: &str,
    v2: JsonValue,
    k3: &str,
    v3: JsonValue,
    k4: &str,
    v4: JsonValue,
) -> (r: JsonValue)
    ensures
        r@ == obj4(k1@, v1@, k2@, v2@, k3@, v3@, k4@, v4@),
{
    let ghost gv1 = v1@;
    let ghost gv2 = v2@;
    let ghost gv3 = v3@;
    let ghost gv4 = v4@;
    let mut o: Vec<(String, JsonValue)> = Vec::new();
    obj_field(&mut o, k1, v1);
    obj_field(&mut o, k2, v2);
    obj_field(&mut o, k3, v3);
    obj_field(&mut o, k4, v4);
    proof {
        assert(jfields_of(o@) =~= seq![(k1@, gv1), (k2@, gv2), (k3@, gv3), (k4@, gv4)]);
    }
    JsonValue::Obj(o)
}

/// The stable path string of a definition: the Definition Identifier, in
/// the crate-relative convention, used uniformly for every record.
pub fn defid_str(ctx: &Ctx, d: DefId) -> (r: String)
    requires
        d < ctx.defs@.len(),
    ensures
        r@ == ctx.path_of(d),
{
    ctx.defs[d].path.clone()
}

/// Records one referenced aggregate definition in the used-types table,
/// unless it is already there.
pub fn record_used(used: &mut Vec<DefId>, d: DefId)
    ensures
        final(used)@ == insert_new(old(used)@, d),
{
    let n = used.len();
    let mut i: usize = 0;
    while i < n
        invariant
            n == used@.len(),
            i <= n,
            forall|k: int| 0 <= k < i ==> used@[k] != d,
            used == old(used),
        decreases n - i,
    {
        if used[i] == d {
            proof {
                assert(old(used)@.contains(d));
            }
            return ;
        }
        i = i + 1;
    }
    proof {
        if old(used)@.contains(d) {
            let w = choose|w: int| 0 <= w < old(used)@.len() && old(used)@[w] == d;
            assert(false);
        }
    }
    used.push(d);
}

/// Encodes one type reference.
pub fn ty_json(ctx: &Ctx, used: &mut Vec<DefId>, t: &Ty) -> (r: Result<JsonValue, EncodeError>)
    requires
        ty_wf(ctx.n(), *t),
    ensures
        res_view(r) == ty_enc(*ctx, *t, old(used)@).0,
        final(used)@ == ty_enc(*ctx, *t, old(used)@).1,
    decreases *t,
{
    match t {
        Ty::Bool => Result::Ok(obj1_json("kind", jstr("Bool"))),
        Ty::Char => Result::Ok(obj1_json("kind", jstr("Char"))),
        Ty::Int(k) => Result::Ok(obj2_json("kind", jstr("Int"), "intkind", intkind_json(*k))),
        Ty::Uint(k) => Result::Ok(obj2_json("kind", jstr("Uint"), "uintkind", uintkind_json(*k))),
        Ty::Float(k) => Result::Ok(obj2_json("kind", jstr("Float"), "size", floatkind_json(*k))),
        Ty::Str => Result::Ok(obj1_json("kind", jstr("Str"))),
        Ty::Tuple(tys) => match tys_json(ctx, used, tys) {
            Result::Ok(items) => Result::Ok(
                obj2_json("kind", jstr("Tuple"), "tys", JsonValue::Arr(items)),
            ),
            Result::Err(e) => Result::Err(e),
        },
        Ty::Slice(t2) => match ty_json(ctx, used, &*t2) {
            Result::Ok(v) => Result::Ok(obj2_json("kind", jstr("Slice"), "ty", v)),
            Result::Err(e) => Result::Err(e),
        },
        Ty::Array(t2, c) => match ty_json(ctx, used, &*t2) {
            Result::Ok(v1) => match const_json(ctx, used, &*c) {
                Result::Ok(v2) => Result::Ok(
                    obj3_json("kind", jstr("Array"), "ty", v1, "size", v2),
                ),
                Result::Err(e) => Result::Err(e),
            },
            Result::Err(e) => Result::Err(e),
        },
        Ty::Ref(t2, m) => match ty_json(ctx, used, &*t2) {
            Result::Ok(v) => Result::Ok(
                obj3_json("kind", jstr("Ref"), "ty", v, "mutability", mutability_json(*m)),
            ),
            Result::Err(e) => Result::Err(e),
        },
        Ty::RawPtr(t2, m) => match ty_json(ctx, used, &*t2) {
            Result::Ok(v) => Result::Ok(
                obj3_json("kind", jstr("RawPtr"), "ty", v, "mutability", mutability_json(*m)),
            ),
            Result::Err(e) => Result::Err(e),
        },
        Ty::Adt(d, s) => {
            let name = defid_str(ctx, *d);
            record_used(used, *d);
            match substs_json(ctx, used, s) {
                Result::Ok(items) => Result::Ok(
                    obj3_json(
                        "kind",
                        jstr("Adt"),
                        "name",
                        JsonValue::Str(name),
                        "substs",
                        JsonValue::Arr(items),
                    ),
                ),
                Result::Err(e) => Result::Err(e),
            }
        },
        Ty::FnDef(d, s) => {
            let name = defid_str(ctx, *d);
            match substs_json(ctx, used, s) {
                Result::Ok(items) => Result::Ok(
                    obj3_json(
                        "kind",
                        jstr("FnDef"),
                        "defid",
                        JsonValue::Str(name),
                        "substs",
                        JsonValue::Arr(items),
                    ),
                ),
                Result::Err(e) => Result::Err(e),
            }
        },
        Ty::FnPtr(sig) => match sig_json(ctx, used, sig) {
            Result::Ok(v) => Result::Ok(obj2_json("kind", jstr("FnPtr"), "signature", v)),
            Result::Err(e) => Result::Err(e),
        },
        Ty::Closure(d, s) => {
            let name = defid_str(ctx, *d);
            match substs_json(ctx, used, s) {
                Result::Ok(items) => Result::Ok(
                    obj3_json(
                        "kind",
                        jstr("Closure"),
                        "defid",
                        JsonValue::Str(name),
                        "closuresubsts",
                        JsonValue::Arr(items),
                    ),
                ),
                Result::Err(e) => Result::Err(e),
            }
        },
        Ty::Dynamic(d) => {
            let name = defid_str(ctx, *d);
            Result::Ok(obj2_json("kind", jstr("Dynamic"), "data", JsonValue::Str(name)))
        },
        Ty::Projection(p) => {
            proof {
                assert(pty_wf(ctx.n(), *p));
            }
            let name = defid_str(ctx, p.item_def_id);
            match substs_json(ctx, used, &p.substs) {
                Result::Ok(items) => Result::Ok(
                    obj3_json(
                        "kind",
                        jstr("Projection"),
                        "substs",
                        JsonValue::Arr(items),
                        "defid",
                        JsonValue::Str(name),
                    ),
                ),
                Result::Err(e) => Result::Err(e),
            }
        },
        Ty::UnnormalizedProjection(p) => {
            proof {
                assert(pty_wf(ctx.n(), *p));
            }
            let name = defid_str(ctx, p.item_def_id);
            match substs_json(ctx, used, &p.substs) {
                Result::Ok(items) => Result::Ok(
                    obj3_json(
                        "kind",
                        jstr("UnnormalizedProjection"),
                        "substs",
                        JsonValue::Arr(items),
                        "defid",
                        JsonValue::Str(name),
                    ),
                ),
                Result::Err(e) => Result::Err(e),
            }
        },
        Ty::Param(i) => Result::Ok(
            obj2_json("kind", jstr("Param"), "param", JsonValue::Num(*i as u128)),
        ),
        Ty::Never => Result::Ok(obj1_json("kind", jstr("Never"))),
        Ty::Error => Result::Ok(obj1_json("kind", jstr("Error"))),
        Ty::Infer => Result::Ok(obj1_json("kind", jstr("Infer"))),
        Ty::Foreign => Result::Ok(obj1_json("kind", jstr("Foreign"))),
        Ty::Generator => Result::Ok(obj1_json("kind", jstr("Generator"))),
        Ty::GeneratorWitness => Result::Ok(obj1_json("kind", jstr("GeneratorWitness"))),
        Ty::Opaque => Result::Ok(obj1_json("kind", jstr("Opaque"))),
    }
}

/// Encodes a list of types in order, stopping at the first failure.
pub fn tys_json(ctx: &Ctx, used: &mut Vec<DefId>, tys: &Vec<Ty>) -> (r: Result<
    Vec<JsonValue>,
    EncodeError,
>)
    requires
        tys_wf(ctx.n(), tys@),
    ensures
        match r {
            Result::Ok(items) => tys_enc(*ctx, tys@, old(used)@).0 == Result::<
                Seq<JVal>,
                EncodeError,
            >::Ok(jvals_of(items@)),
            Result::Err(e) => tys_enc(*ctx, tys@, old(used)@).0 == Result::<
                Seq<JVal>,
                EncodeError,
            >::Err(e),
        },
        final(used)@ == tys_enc(*ctx, tys@, old(used)@).1,
    decreases tys,
{
    let ghost ctx0 = *ctx;
    let ghost used0 = old(used)@;
    let mut out: Vec<JsonValue> = Vec::new();
    let mut i: usize = 0;
    while i < tys.len()
        invariant
            i <= tys@.len(),
            tys_wf(ctx0.n(), tys@),
            ctx0 == *ctx,
            used0 == old(used)@,
            tys_enc(ctx0, tys@.take(i as int), used0) == (
                Result::<Seq<JVal>, EncodeError>::Ok(jvals_of(out@)),
                used@,
            ),
        decreases tys@.len() - i,
    {
        let ghost pre = tys@.take(i as int);
        assert(tys@[i as int] == tys@.take(i + 1)[i as int]);
        proof {
            crate::ir::lemma_tys_wf_index(ctx0.n(), tys@, i as int);
        }
        let ghost out_pre = out@;
        let v = match ty_json(ctx, used, &tys[i]) {
            Result::Ok(v) => v,
            Result::Err(e) => {
                proof {
                    assert(tys@.take(i + 1).drop_last() =~= pre);
                    assert(tys@.take(i + 1).last() == tys@[i as int]);
                    assert(tys_enc(ctx0, tys@.take(i + 1), used0).0 == Result::<
                        Seq<JVal>,
                        EncodeError,
                    >::Err(e));
                    lemma_tys_enc_err_app(ctx0, tys@.take(i + 1), tys@.skip(i + 1), used0);
                    assert(tys@.take(i + 1) + tys@.skip(i + 1) =~= tys@);
                }
                return Result::Err(e);
            },
        };
        let ghost vv: JsonValue = v;
        out.push(v);
        i = i + 1;
        proof {
            assert(tys@.take(i as int).drop_last() =~= pre);
            assert(tys@.take(i as int).last() == tys@[i - 1]);
            lemma_jvals_of_push(out_pre, vv);
        }
    }
    proof {
        assert(tys@.take(tys@.len() as int) =~= tys@);
    }
    Result::Ok(out)
}

/// Encodes one generic argument.
pub fn subst_json(ctx: &Ctx, used: &mut Vec<DefId>, su: &Subst) -> (r: Result<
    JsonValue,
    EncodeError,
>)
    requires
        subst_wf(ctx.n(), *su),
    ensures
        res_view(r) == subst_enc(*ctx, *su, old(used)@).0,
        final(used)@ == subst_enc(*ctx, *su, old(used)@).1,
    decreases *su,
{
    match su {
        Subst::TyArg(t) => ty_json(ctx, used, t),
        Subst::Lifetime => Result::Ok(obj1_json("kind", jstr("Lifetime"))),
    }
}

/// Encodes a substitution list in order, stopping at the first failure.
pub fn substs_json(ctx: &Ctx, used: &mut Vec<DefId>, s: &Vec<Subst>) -> (r: Result<
    Vec<JsonValue>,
    EncodeError,
>)
    requires
        substs_wf(ctx.n(), s@),
    ensures
        match r {
            Result::Ok(items) => substs_enc(*ctx, s@, old(used)@).0 == Result::<
                Seq<JVal>,
                EncodeError,
            >::Ok(jvals_of(items@)),
            Result::Err(e) => substs_enc(*ctx, s@, old(used)@).0 == Result::<
                Seq<JVal>,
                EncodeError,
            >::Err(e),
        },
        final(used)@ == substs_enc(*ctx, s@, old(used)@).1,
    decreases s,
{
    let ghost ctx0 = *ctx;
    let ghost used0 = old(used)@;
    let mut out: Vec<JsonValue> = Vec::new();
    let mut i: usize = 0;
    while i < s.len()
        invariant
            i <= s@.len(),
            substs_wf(ctx0.n(), s@),
            ctx0 == *ctx,
            used0 == old(used)@,
            substs_enc(ctx0, s@.take(i as int), used0) == (
                Result::<Seq<JVal>, EncodeError>::Ok(jvals_of(out@)),
                used@,
            ),
        decreases s@.len() - i,
    {
        let ghost pre = s@.take(i as int);
        assert(s@[i as int] == s@.take(i + 1)[i as int]);
        proof {
            crate::ir::lemma_substs_wf_index(ctx0.n(), s@, i as int);
        }
        let ghost out_pre = out@;
        let v = match subst_json(ctx, used, &s[i]) {
            Result::Ok(v) => v,
            Result::Err(e) => {
                proof {
                    assert(s@.take(i + 1).drop_last() =~= pre);
                    assert(s@.take(i + 1).last() == s@[i as int]);
                    lemma_substs_enc_err_app(ctx0, s@.take(i + 1), s@.skip(i + 1), used0);
                    assert(s@.take(i + 1) + s@.skip(i + 1) =~= s@);
                }
                return Result::Err(e);
            },
        };
        let ghost vv: JsonValue = v;
        out.push(v);
        i = i + 1;
        proof {
            assert(s@.take(i as int).drop_last() =~= pre);
            assert(s@.take(i as int).last() == s@[i - 1]);
            lemma_jvals_of_push(out_pre, vv);
        }
    }
    proof {
        assert(s@.take(s@.len() as int) =~= s@);
    }
    Result::Ok(out)
}

/// Encodes a function signature.
pub fn sig_json(ctx: &Ctx, used: &mut Vec<DefId>, sig: &FnSig) -> (r: Result<
    JsonValue,
    EncodeError,
>)
    requires
        sig_wf(ctx.n(), *sig),
    ensures
        res_view(r) == sig_enc(*ctx, *sig, old(used)@).0,
        final(used)@ == sig_enc(*ctx, *sig, old(used)@).1,
    decreases *sig,
{
    match tys_json(ctx, used, &sig.inputs) {
        Result::Ok(items) => match ty_json(ctx, used, &*sig.output) {
            Result::Ok(v) => Result::Ok(
                obj2_json("inputs", JsonValue::Arr(items), "output", v),
            ),
            Result::Err(e) => Result::Err(e),
        },
        Result::Err(e) => Result::Err(e),
    }
}

/// Encodes a projection, as predicates reference it.
pub fn pty_json(ctx: &Ctx, used: &mut Vec<DefId>, p: &ProjectionTy) -> (r: Result<
    JsonValue,
    EncodeError,
>)
    requires
        pty_wf(ctx.n(), *p),
    ensures
        res_view(r) == pty_enc(*ctx, *p, old(used)@).0,
        final(used)@ == pty_enc(*ctx, *p, old(used)@).1,
{
    let name = defid_str(ctx, p.item_def_id);
    match substs_json(ctx, used, &p.substs) {
        Result::Ok(items) => Result::Ok(
            obj2_json("substs", JsonValue::Arr(items), "item_def_id", JsonValue::Str(name)),
        ),
        Result::Err(e) => Result::Err(e),
    }
}

/// Encodes a trait reference.
pub fn trait_ref_json(ctx: &Ctx, used: &mut Vec<DefId>, tr: &TraitRef) -> (r: Result<
    JsonValue,
    EncodeError,
>)
    requires
        trait_ref_wf(ctx.n(), *tr),
    ensures
        res_view(r) == trait_ref_enc(*ctx, *tr, old(used)@).0,
        final(used)@ == trait_ref_enc(*ctx, *tr, old(used)@).1,
{
    let name = defid_str(ctx, tr.def_id);
    match substs_json(ctx, used, &tr.substs) {
        Result::Ok(items) => Result::Ok(
            obj2_json("trait", JsonValue::Str(name), "substs", JsonValue::Arr(items)),
        ),
        Result::Err(e) => Result::Err(e),
    }
}

/// Encodes one obligation; an unmodelled kind degrades to a placeholder.
pub fn pred_json(ctx: &Ctx, used: &mut Vec<DefId>, p: &Predicate) -> (r: Result<
    JsonValue,
    EncodeError,
>)
    requires
        pred_wf(ctx.n(), *p),
    ensures
        res_view(r) == pred_enc(*ctx, *p, old(used)@).0,
        final(used)@ == pred_enc(*ctx, *p, old(used)@).1,
{
    match p {
        Predicate::Trait(tr) => match trait_ref_json(ctx, used, tr) {
            Result::Ok(v) => Result::Ok(obj1_json("trait_pred", v)),
            Result::Err(e) => Result::Err(e),
        },
        Predicate::Projection(pp) => match pty_json(ctx, used, &pp.projection_ty) {
            Result::Ok(v0) => match ty_json(ctx, used, &pp.ty) {
                Result::Ok(v1) => Result::Ok(
                    obj1_json("trait_proj", obj2_json("projection_ty", v0, "ty", v1)),
                ),
                Result::Err(e) => Result::Err(e),
            },
            Result::Err(e) => Result::Err(e),
        },
        Predicate::Other => Result::Ok(jstr("unknown_pred")),
    }
}

pub fn intkind_json(k: IntKind) -> (r: JsonValue)
    ensures
        r@ == JVal::Str(intkind_str(k)),
{
    match k {
        IntKind::Isize => jstr("Isize"),
        IntKind::I8 => jstr("I8"),
        IntKind::I16 => jstr("I16"),
        IntKind::I32 => jstr("I32"),
        IntKind::I64 => jstr("I64"),
        IntKind::I128 => jstr("I128"),
    }
}

pub fn uintkind_json(k: UintKind) -> (r: JsonValue)
    ensures
        r@ == JVal::Str(uintkind_str(k)),
{
    match k {
        UintKind::Usize => jstr("Usize"),
        UintKind::U8 => jstr("U8"),
        UintKind::U16 => jstr("U16"),
        UintKind::U32 => jstr("U32"),
        UintKind::U64 => jstr("U64"),
        UintKind::U128 => jstr("U128"),
    }
}

pub fn floatkind_json(k: FloatKind) -> (r: JsonValue)
    ensures
        r@ == JVal::Str(floatkind_str(k)),
{
    match k {
        FloatKind::F32Kind => jstr("F32"),
        FloatKind::F64Kind => jstr("F64"),
    }
}

pub fn mutability_json(m: Mutability) -> (r: JsonValue)
    ensures
        r@ == JVal::Str(mutability_str(m)),
{
    match m {
        Mutability::MutMutable => jstr("MutMutable"),
        Mutability::MutImmutable => jstr("MutImmutable"),
    }
}

pub fn ctor_kind_json(k: CtorKind) -> (r: JsonValue)
    ensures
        r@ == JVal::Str(ctor_kind_str(k)),
{
    match k {
        CtorKind::FnCtor => jstr("Fn"),
        CtorKind::ConstCtor => jstr("Const"),
        CtorKind::Fictive => jstr("Fictive"),
    }
}

/// Encodes a borrow kind.
pub fn borrow_kind_json(k: BorrowKind) -> (r: JsonValue)
    ensures
        r@ == JVal::Str(borrow_kind_str(k)),
{
    match k {
        BorrowKind::Shared => jstr("Shared"),
        BorrowKind::Shallow => jstr("Shallow"),
        BorrowKind::Unique => jstr("Unique"),
        BorrowKind::MutBorrow => jstr("Mut"),
    }
}

} // verus!
