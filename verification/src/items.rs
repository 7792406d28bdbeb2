//! Generics, predicates, associated items and aggregate definitions.
//!
//! Generic parameter lists and predicate lists are flattened by walking the
//! owner chain upward and emitting the parent's entries before the
//! definition's own — the composition that keeps positional `Param`
//! references resolvable. Aggregate definitions are the one place full
//! variant and field data is emitted.

use vstd::prelude::*;
use crate::ir::{
    AdtDef, AggregateKind, AssocItem, AssocKind, Const, Container, Ctx, DefId, Defaultness,
    FieldDef, Member, Operand, ParamDef, Predicate, Subst, VariantDef, VariantDiscr, const_wf,
    lemma_preds_wf_index, substs_wf,
};
use crate::json::{JVal, JsonValue, jfields_of, jvals_of, lemma_jvals_of_push, obj_field};
use crate::encode::{
    Enc, EncodeError, ctor_kind_str, ctor_kind_json, defid_str, flatten_params, flatten_preds,
    generics_jval, jstr, obj1, obj1_json, obj2, obj2_json, obj3, obj3_json, param_jval,
    pred_json, predicates_enc, preds_enc, res_view, sig_enc, sig_json, substs_enc, substs_json, ty_enc,
    ty_json,
};
use crate::consts::{const_enc, const_json};

verus! {

/// The record for one variant discriminant.
pub open spec fn discr_jval(ctx: Ctx, d: VariantDiscr) -> JVal {
    match d {
        VariantDiscr::Relative(i) => obj2(
            "kind"@,
            JVal::Str("Relative"@),
            "index"@,
            JVal::Num(i as nat),
        ),
        VariantDiscr::Explicit(did) => obj2(
            "kind"@,
            JVal::Str("Explicit"@),
            "name"@,
            JVal::Str(ctx.path_of(did)),
        ),
    }
}

/// Encodes a variant discriminant.
pub fn variant_discr_json(ctx: &Ctx, d: VariantDiscr) -> (r: JsonValue)
    requires
        d matches VariantDiscr::Explicit(did) ==> did < ctx.defs@.len(),
    ensures
        r@ == discr_jval(*ctx, d),
{
    match d {
        VariantDiscr::Relative(i) => obj2_json(
            "kind",
            jstr("Relative"),
            "index",
            JsonValue::Num(i as u128),
        ),
        VariantDiscr::Explicit(did) => obj2_json(
            "kind",
            jstr("Explicit"),
            "name",
            JsonValue::Str(defid_str(ctx, did)),
        ),
    }
}

/// What encoding the declared type of a definition yields.
pub open spec fn defid_ty_enc(ctx: Ctx, d: DefId, used: Seq<DefId>) -> Enc {
    ty_enc(ctx, ctx.defs@[d as int].ty->Some_0, used)
}

/// Encodes the declared type of a definition.
pub fn defid_ty(ctx: &Ctx, used: &mut Vec<DefId>, d: DefId) -> (r: Result<JsonValue, EncodeError>)
    requires
        ctx.wf(),
        d < ctx.defs@.len(),
        ctx.defs@[d as int].ty is Some,
    ensures
        res_view(r) == defid_ty_enc(*ctx, d, old(used)@).0,
        final(used)@ == defid_ty_enc(*ctx, d, old(used)@).1,
{
    proof {
        assert(ctx.defs@[d as int].wf(ctx.n(), d as int));
    }
    match &ctx.defs[d].ty {
        Option::Some(t) => ty_json(ctx, used, t),
        Option::None => {
            proof {
                assert(false);
            }
            Result::Err(EncodeError::ScalarMissing)
        },
    }
}

/// The owner chain of a definition: the definition itself, then its parent,
/// up to the root owner.
pub open spec fn chain_ok(ctx: Ctx, d: DefId, ch: Seq<DefId>) -> bool {
    &&& ch.len() >= 1
    &&& ch[0] == d
    &&& (forall|k: int| 0 <= k < ch.len() ==> (#[trigger] ch[k]) < ctx.defs@.len())
    &&& (forall|k: int|
        0 <= k < ch.len() - 1 ==> ctx.defs@[#[trigger] ch[k] as int].parent == Option::Some(
            ch[k + 1],
        ) && ch[k + 1] < ch[k])
    &&& ctx.defs@[ch.last() as int].parent is None
}

/// Collects the owner chain by an explicit upward walk.
pub fn owner_chain(ctx: &Ctx, d: DefId) -> (chain: Vec<DefId>)
    requires
        ctx.wf(),
        d < ctx.defs@.len(),
    ensures
        chain_ok(*ctx, d, chain@),
{
    let mut chain: Vec<DefId> = Vec::new();
    chain.push(d);
    let mut c: DefId = d;
    let mut done: bool = false;
    while !done
        invariant
            ctx.wf(),
            c < ctx.defs@.len(),
            chain@.len() >= 1,
            chain@[0] == d,
            chain@.last() == c,
            forall|k: int| 0 <= k < chain@.len() ==> (#[trigger] chain@[k]) < ctx.defs@.len(),
            forall|k: int|
                0 <= k < chain@.len() - 1 ==> ctx.defs@[#[trigger] chain@[k] as int].parent
                    == Option::Some(chain@[k + 1]) && chain@[k + 1] < chain@[k],
            done ==> ctx.defs@[c as int].parent is None,
        decreases (if done { 0int } else { c + 1 }),
    {
        proof {
            assert(ctx.defs@[c as int].wf(ctx.n(), c as int));
        }
        match &ctx.defs[c].parent {
            Option::Some(p) => {
                chain.push(*p);
                c = *p;
            },
            Option::None => {
                done = true;
            },
        }
    }
    chain
}

/// The records of a flattened parameter list.
pub open spec fn params_jvals(ctx: Ctx, ps: Seq<ParamDef>) -> Seq<JVal> {
    ps.map_values(|pd: ParamDef| param_jval(ctx, pd))
}

/// Encodes one generic parameter.
pub fn param_json(ctx: &Ctx, pd: &ParamDef) -> (r: JsonValue)
    requires
        pd.def_id < ctx.defs@.len(),
    ensures
        r@ == param_jval(*ctx, *pd),
{
    obj2_json(
        "param_def",
        JsonValue::Str(pd.name.clone()),
        "def_id",
        JsonValue::Str(defid_str(ctx, pd.def_id)),
    )
}

/// Encodes the generics of a definition: its flattened parameter list, the
/// parent's parameters before the definition's own.
pub fn generics_json(ctx: &Ctx, d: DefId) -> (r: JsonValue)
    requires
        ctx.wf(),
        d < ctx.defs@.len(),
    ensures
        r@ == generics_jval(*ctx, d),
{
    let chain = owner_chain(ctx, d);
    let mut out: Vec<JsonValue> = Vec::new();
    let mut j: usize = chain.len();
    while j > 0
        invariant
            ctx.wf(),
            chain_ok(*ctx, d, chain@),
            j <= chain@.len(),
            j == chain@.len() ==> jvals_of(out@) == params_jvals(
                *ctx,
                Seq::<ParamDef>::empty(),
            ),
            j < chain@.len() ==> jvals_of(out@) == params_jvals(
                *ctx,
                flatten_params(*ctx, chain@[j as int]),
            ),
        decreases j,
    {
        j = j - 1;
        let did = chain[j];
        proof {
            assert(ctx.defs@[did as int].wf(ctx.n(), did as int));
        }
        let ghost base: Seq<ParamDef> = if j + 1 == chain@.len() {
            Seq::<ParamDef>::empty()
        } else {
            flatten_params(*ctx, chain@[j + 1])
        };
        let own = &ctx.defs[did].own_params;
        let mut k: usize = 0;
        while k < own.len()
            invariant
                ctx.wf(),
                did < ctx.defs@.len(),
                own == &ctx.defs@[did as int].own_params,
                k <= own@.len(),
                jvals_of(out@) == params_jvals(*ctx, base + own@.take(k as int)),
            decreases own@.len() - k,
        {
            proof {
                assert(ctx.defs@[did as int].wf(ctx.n(), did as int));
                assert(own@[k as int].def_id < ctx.defs@.len());
            }
            let ghost out_pre = out@;
            let v = param_json(ctx, &own[k]);
            let ghost vv: JsonValue = v;
            out.push(v);
            k = k + 1;
            proof {
                lemma_jvals_of_push(out_pre, vv);
                assert((base + own@.take(k as int)) =~= (base + own@.take(k - 1)).push(
                    own@[k - 1],
                ));
                assert(params_jvals(*ctx, (base + own@.take(k - 1)).push(own@[k - 1]))
                    =~= params_jvals(*ctx, base + own@.take(k - 1)).push(
                    param_jval(*ctx, own@[k - 1]),
                ));
            }
        }
        proof {
            assert(base + own@.take(own@.len() as int) =~= base + own@);
            if j + 1 == chain@.len() {
                assert(ctx.defs@[did as int].parent is None);
                assert(flatten_params(*ctx, did) == Seq::<ParamDef>::empty() + own@);
            } else {
                assert(ctx.defs@[did as int].parent == Option::Some(chain@[j + 1]));
                assert(chain@[j + 1] < did);
                assert(flatten_params(*ctx, did) == flatten_params(*ctx, chain@[j + 1]) + own@);
            }
        }
    }
    proof {
        assert(chain@[0] == d);
    }
    obj1_json("params", JsonValue::Arr(out))
}

/// Encodes the predicates of a definition: its flattened obligation list,
/// composed parent-then-self, in the same order as the generics.
#[verifier::rlimit(100)]
pub fn predicates_json(ctx: &Ctx, used: &mut Vec<DefId>, d: DefId) -> (r: Result<
    JsonValue,
    EncodeError,
>)
    requires
        ctx.wf(),
        d < ctx.defs@.len(),
    ensures
        res_view(r) == predicates_enc(*ctx, d, old(used)@).0,
        final(used)@ == predicates_enc(*ctx, d, old(used)@).1,
{
    let ghost used0 = old(used)@;
    let chain = owner_chain(ctx, d);
    let mut out: Vec<JsonValue> = Vec::new();
    let mut j: usize = chain.len();
    while j > 0
        invariant
            ctx.wf(),
            chain_ok(*ctx, d, chain@),
            used0 == old(used)@,
            d < ctx.defs@.len(),
            j <= chain@.len(),
            preds_enc(
                *ctx,
                (if j == chain@.len() {
                    Seq::<Predicate>::empty()
                } else {
                    flatten_preds(*ctx, chain@[j as int])
                }),
                used0,
            ) == (Result::<Seq<JVal>, EncodeError>::Ok(jvals_of(out@)), used@),
        decreases j,
    {
        j = j - 1;
        let did = chain[j];
        proof {
            assert(ctx.defs@[did as int].wf(ctx.n(), did as int));
        }
        let ghost base: Seq<Predicate> = if j + 1 == chain@.len() {
            Seq::<Predicate>::empty()
        } else {
            flatten_preds(*ctx, chain@[j + 1])
        };
        let own = &ctx.defs[did].own_preds;
        let mut k: usize = 0;
        while k < own.len()
            invariant
                ctx.wf(),
                used0 == old(used)@,
                chain_ok(*ctx, d, chain@),
                j < chain@.len(),
                did == chain@[j as int],
                did < ctx.defs@.len(),
                own == &ctx.defs@[did as int].own_preds,
                base == (if j + 1 == chain@.len() {
                    Seq::<Predicate>::empty()
                } else {
                    flatten_preds(*ctx, chain@[j + 1])
                }),
                k <= own@.len(),
                preds_enc(*ctx, base + own@.take(k as int), used0) == (
                    Result::<Seq<JVal>, EncodeError>::Ok(jvals_of(out@)),
                    used@,
                ),
            decreases own@.len() - k,
        {
            proof {
                assert(ctx.defs@[did as int].wf(ctx.n(), did as int));
                lemma_preds_wf_index(ctx.n(), own@, k as int);
            }
            let ghost pre = base + own@.take(k as int);
            let ghost out_pre = out@;
            let v = match pred_json(ctx, used, &own[k]) {
                Result::Ok(v) => v,
                Result::Err(e) => {
                    proof {
                        assert(pre.push(own@[k as int]) =~= base + own@.take(k + 1));
                        assert((base + own@.take(k + 1)).drop_last() =~= pre);
                        assert((base + own@.take(k + 1)).last() == own@[k as int]);
                        lemma_preds_err_split(*ctx, d, chain@, j as int, base, k as int, used0);
                    }
                    return Result::Err(e);
                },
            };
            let ghost vv: JsonValue = v;
            out.push(v);
            k = k + 1;
            proof {
                lemma_jvals_of_push(out_pre, vv);
                assert(base + own@.take(k as int) =~= pre.push(own@[k - 1]));
                assert((pre.push(own@[k - 1])).drop_last() =~= pre);
                assert((pre.push(own@[k - 1])).last() == own@[k - 1]);
            }
        }
        proof {
            assert(base + own@.take(own@.len() as int) =~= base + own@);
            if j + 1 == chain@.len() {
                assert(ctx.defs@[did as int].parent is None);
                assert(flatten_preds(*ctx, did) == base + own@);
            } else {
                assert(ctx.defs@[did as int].parent == Option::Some(chain@[j + 1]));
                assert(chain@[j + 1] < did);
                assert(flatten_preds(*ctx, did) == flatten_preds(*ctx, chain@[j + 1]) + own@);
                assert(flatten_preds(*ctx, did) =~= base + own@);
            }
        }
    }
    proof {
        assert(chain@[0] == d);
    }
    Result::Ok(obj1_json("predicates", JsonValue::Arr(out)))
}

/// The own-predicate lists of the chain entries below position `j`, in the
/// order they are emitted after position `j`'s flattened list.
pub open spec fn pending_preds(ctx: Ctx, ch: Seq<DefId>, j: int) -> Seq<Predicate>
    decreases j,
{
    if j <= 0 {
        Seq::empty()
    } else {
        ctx.defs@[ch[j - 1] as int].own_preds@ + pending_preds(ctx, ch, j - 1)
    }
}

/// A failure while emitting one chain entry's own predicates settles the
/// whole flattened list's encoding.
proof fn lemma_preds_err_split(
    ctx: Ctx,
    d: DefId,
    ch: Seq<DefId>,
    j: int,
    base: Seq<Predicate>,
    k: int,
    used0: Seq<DefId>,
)
    requires
        chain_ok(ctx, d, ch),
        0 <= j < ch.len(),
        base == (if j + 1 == ch.len() {
            Seq::<Predicate>::empty()
        } else {
            flatten_preds(ctx, ch[j + 1])
        }),
        0 <= k < ctx.defs@[ch[j] as int].own_preds@.len(),
        preds_enc(ctx, base + ctx.defs@[ch[j] as int].own_preds@.take(k + 1), used0).0 is Err,
    ensures
        preds_enc(ctx, flatten_preds(ctx, d), used0) == preds_enc(
            ctx,
            base + ctx.defs@[ch[j] as int].own_preds@.take(k + 1),
            used0,
        ),
{
    let did = ch[j];
    let own = ctx.defs@[did as int].own_preds@;
    lemma_flatten_preds_at(ctx, ch, j);
    if j + 1 == ch.len() {
        assert(ctx.defs@[did as int].parent is None);
        assert(flatten_preds(ctx, did) == base + own);
    } else {
        assert(ctx.defs@[did as int].parent == Option::Some(ch[j + 1]));
        assert(ch[j + 1] < did);
        assert(flatten_preds(ctx, did) =~= base + own);
    }
    crate::encode::lemma_preds_enc_err_app(
        ctx,
        base + own.take(k + 1),
        own.skip(k + 1) + pending_preds(ctx, ch, j),
        used0,
    );
    assert((base + own.take(k + 1)) + (own.skip(k + 1) + pending_preds(ctx, ch, j))
        =~= flatten_preds(ctx, d));
}

/// Last trait member with the given name, the way repeated insertion into a
/// map would leave it.
pub open spec fn last_member_named(ms: Seq<Member>, name: Seq<char>) -> Option<DefId>
    decreases ms,
{
    if ms.len() == 0 {
        Option::None
    } else if ms.last().name@ == name {
        Option::Some(ms.last().def_id)
    } else {
        last_member_named(ms.drop_last(), name)
    }
}

/// The trait member an impl member implements: the same-named member of the
/// implemented trait, where the item sits in an impl of a trait. An inherent
/// impl member, or a trait's own member, implements nothing.
pub open spec fn implements_of(ctx: Ctx, item: AssocItem) -> Option<DefId> {
    match item.container {
        Container::ImplContainer(i) => match ctx.defs@[i as int].trait_ref {
            Option::Some(tr) => last_member_named(
                ctx.defs@[tr.def_id as int].members@,
                item.name@,
            ),
            Option::None => Option::None,
        },
        Container::TraitContainer(_) => Option::None,
    }
}

/// The context records what the item's kind needs: a type for a constant or
/// a resolved associated type, a signature for a method.
pub open spec fn item_wf(ctx: Ctx, item: AssocItem) -> bool {
    &&& item.def_id < ctx.defs@.len()
    &&& (item.kind is Const ==> ctx.defs@[item.def_id as int].ty is Some)
    &&& (item.kind is Method ==> ctx.defs@[item.def_id as int].sig is Some)
    &&& (item.kind is Type && !(item.defaultness is DefaultNoValue)
        ==> ctx.defs@[item.def_id as int].ty is Some)
    &&& (item.container matches Container::ImplContainer(i) ==> i < ctx.defs@.len())
}

/// The record for one associated item: its name, generics and predicates,
/// its kind with the kind's payload — a `Type` kind that is declared but not
/// resolved carries no payload — and, for an impl member that implements a
/// trait member, that member's identifier.
pub open spec fn assoc_enc(ctx: Ctx, item: AssocItem, used: Seq<DefId>) -> Enc {
    let d = item.def_id;
    let (rp, u1) = predicates_enc(ctx, d, used);
    match rp {
        Result::Err(e) => (Result::Err(e), u1),
        Result::Ok(pv) => {
            let base = seq![
                ("name"@, JVal::Str(ctx.path_of(d))),
                ("generics"@, generics_jval(ctx, d)),
                ("predicates"@, pv),
            ];
            let (rk, u2) = match item.kind {
                AssocKind::Const => {
                    let (rt, u2) = ty_enc(ctx, ctx.defs@[d as int].ty->Some_0, u1);
                    match rt {
                        Result::Ok(tv) => (
                            Result::Ok(
                                base.push(("kind"@, JVal::Str("Const"@))).push(("type"@, tv)),
                            ),
                            u2,
                        ),
                        Result::Err(e) => (Result::Err(e), u2),
                    }
                },
                AssocKind::Method => {
                    let (rs, u2) = sig_enc(ctx, ctx.defs@[d as int].sig->Some_0, u1);
                    match rs {
                        Result::Ok(sv) => (
                            Result::Ok(
                                base.push(("kind"@, JVal::Str("Method"@))).push(
                                    ("signature"@, sv),
                                ),
                            ),
                            u2,
                        ),
                        Result::Err(e) => (Result::Err(e), u2),
                    }
                },
                AssocKind::Type => {
                    if item.defaultness is DefaultNoValue {
                        (Result::Ok(base.push(("kind"@, JVal::Str("Type"@)))), u1)
                    } else {
                        let (rt, u2) = ty_enc(ctx, ctx.defs@[d as int].ty->Some_0, u1);
                        match rt {
                            Result::Ok(tv) => (
                                Result::Ok(
                                    base.push(("kind"@, JVal::Str("Type"@))).push(("type"@, tv)),
                                ),
                                u2,
                            ),
                            Result::Err(e) => (Result::Err(e), u2),
                        }
                    }
                },
                AssocKind::Existential => (
                    Result::Ok(base.push(("kind"@, JVal::Str("Existential"@)))),
                    u1,
                ),
            };
            match rk {
                Result::Err(e) => (Result::Err(e), u2),
                Result::Ok(fields) => match implements_of(ctx, item) {
                    Option::Some(m) => (
                        Result::Ok(
                            JVal::Obj(
                                fields.push(("implements"@, JVal::Str(ctx.path_of(m)))),
                            ),
                        ),
                        u2,
                    ),
                    Option::None => (Result::Ok(JVal::Obj(fields)), u2),
                },
            }
        },
    }
}

/// Encodes one associated item.
#[verifier::rlimit(100)]
pub fn assoc_item_json(ctx: &Ctx, used: &mut Vec<DefId>, item: &AssocItem) -> (r: Result<
    JsonValue,
    EncodeError,
>)
    requires
        ctx.wf(),
        item_wf(*ctx, *item),
    ensures
        res_view(r) == assoc_enc(*ctx, *item, old(used)@).0,
        final(used)@ == assoc_enc(*ctx, *item, old(used)@).1,
{
    let ghost used0 = old(used)@;
    let d = item.def_id;
    let name = defid_str(ctx, d);
    let gen = generics_json(ctx, d);
    let preds = match predicates_json(ctx, used, d) {
        Result::Ok(v) => v,
        Result::Err(e) => {
            return Result::Err(e);
        },
    };
    let ghost gpv = preds@;
    let mut fields: Vec<(String, JsonValue)> = Vec::new();
    obj_field(&mut fields, "name", JsonValue::Str(name));
    obj_field(&mut fields, "generics", gen);
    obj_field(&mut fields, "predicates", preds);
    let ghost base = seq![
        ("name"@, JVal::Str(ctx.path_of(d))),
        ("generics"@, generics_jval(*ctx, d)),
        ("predicates"@, gpv),
    ];
    proof {
        assert(jfields_of(fields@) =~= base);
        assert(ctx.defs@[d as int].wf(ctx.n(), d as int));
    }
    match item.kind {
        AssocKind::Const => {
            obj_field(&mut fields, "kind", jstr("Const"));
            let tv = match defid_ty(ctx, used, d) {
                Result::Ok(v) => v,
                Result::Err(e) => {
                    return Result::Err(e);
                },
            };
            obj_field(&mut fields, "type", tv);
        },
        AssocKind::Method => {
            obj_field(&mut fields, "kind", jstr("Method"));
            let sv = match sig_json(ctx, used, ctx.defs[d].sig.as_ref().unwrap()) {
                Result::Ok(v) => v,
                Result::Err(e) => {
                    return Result::Err(e);
                },
            };
            obj_field(&mut fields, "signature", sv);
        },
        AssocKind::Type => {
            obj_field(&mut fields, "kind", jstr("Type"));
            match item.defaultness {
                Defaultness::DefaultNoValue => {},
                _ => {
                    let tv = match defid_ty(ctx, used, d) {
                        Result::Ok(v) => v,
                        Result::Err(e) => {
                            return Result::Err(e);
                        },
                    };
                    obj_field(&mut fields, "type", tv);
                },
            }
        },
        AssocKind::Existential => {
            obj_field(&mut fields, "kind", jstr("Existential"));
        },
    }
    match &item.container {
        Container::ImplContainer(impl_did) => match &ctx.defs[*impl_did].trait_ref {
            Option::Some(tr) => {
                proof {
                    assert(ctx.defs@[*impl_did as int].wf(ctx.n(), *impl_did as int));
                    assert(tr.def_id < ctx.defs@.len());
                    assert(ctx.defs@[tr.def_id as int].wf(ctx.n(), tr.def_id as int));
                }
                let members = &ctx.defs[tr.def_id].members;
                let mut found: Option<DefId> = Option::None;
                let mut i: usize = 0;
                while i < members.len()
                    invariant
                        i <= members@.len(),
                        found == last_member_named(members@.take(i as int), item.name@),
                    decreases members@.len() - i,
                {
                    if members[i].name == item.name {
                        found = Option::Some(members[i].def_id);
                    }
                    i = i + 1;
                    proof {
                        assert(members@.take(i as int).drop_last() =~= members@.take(i - 1));
                        assert(members@.take(i as int).last() == members@[i - 1]);
                    }
                }
                proof {
                    assert(members@.take(members@.len() as int) =~= members@);
                }
                match found {
                    Option::Some(m) => {
                        proof {
                            lemma_last_member_in(members@, item.name@);
                            assert(ctx.defs@[tr.def_id as int].wf(ctx.n(), tr.def_id as int));
                        }
                        obj_field(&mut fields, "implements", JsonValue::Str(defid_str(ctx, m)));
                    },
                    Option::None => {},
                }
            },
            Option::None => {},
        },
        Container::TraitContainer(_) => {},
    }
    Result::Ok(JsonValue::Obj(fields))
}

/// A found member names a definition the member list holds.
proof fn lemma_last_member_in(ms: Seq<Member>, name: Seq<char>)
    ensures
        last_member_named(ms, name) matches Option::Some(m) ==> exists|i: int|
            0 <= i < ms.len() && (#[trigger] ms[i]).def_id == m,
    decreases ms,
{
    if ms.len() > 0 {
        lemma_last_member_in(ms.drop_last(), name);
        if last_member_named(ms, name) is Some && !(ms.last().name@ == name) {
            let m = last_member_named(ms, name)->Some_0;
            let i = choose|i: int|
                0 <= i < ms.drop_last().len() && (#[trigger] ms.drop_last()[i]).def_id == m;
            assert(ms[i].def_id == m);
        }
    }
}

/// The context records a declared type for the field's definition.
pub open spec fn field_wf(ctx: Ctx, f: FieldDef) -> bool {
    f.did < ctx.defs@.len() && ctx.defs@[f.did as int].ty is Some
}

pub open spec fn fields_wf(ctx: Ctx, s: Seq<FieldDef>) -> bool
    decreases s,
{
    s.len() == 0 || (fields_wf(ctx, s.drop_last()) && field_wf(ctx, s.last()))
}

pub open spec fn variant_wf(ctx: Ctx, v: VariantDef) -> bool {
    &&& v.did < ctx.defs@.len()
    &&& (v.discr matches VariantDiscr::Explicit(e) ==> e < ctx.defs@.len())
    &&& fields_wf(ctx, v.fields@)
}

pub open spec fn variants_wf(ctx: Ctx, s: Seq<VariantDef>) -> bool
    decreases s,
{
    s.len() == 0 || (variants_wf(ctx, s.drop_last()) && variant_wf(ctx, s.last()))
}

pub open spec fn adt_wf(ctx: Ctx, a: AdtDef) -> bool {
    a.did < ctx.defs@.len() && variants_wf(ctx, a.variants@)
}

/// The record for one field: its identifier, its declared type — the
/// definition's own generic form, never a particular instantiation — and
/// the substitution the aggregate is instantiated at.
pub open spec fn field_enc(ctx: Ctx, f: FieldDef, substs: Seq<Subst>, used: Seq<DefId>) -> Enc {
    let (rt, u1) = ty_enc(ctx, ctx.defs@[f.did as int].ty->Some_0, used);
    match rt {
        Result::Err(e) => (Result::Err(e), u1),
        Result::Ok(tv) => {
            let (rs, u2) = substs_enc(ctx, substs, u1);
            match rs {
                Result::Err(e) => (Result::Err(e), u2),
                Result::Ok(sv) => (
                    Result::Ok(
                        obj3(
                            "name"@,
                            JVal::Str(ctx.path_of(f.did)),
                            "ty"@,
                            tv,
                            "substs"@,
                            JVal::Arr(sv),
                        ),
                    ),
                    u2,
                ),
            }
        },
    }
}

pub open spec fn fields_enc(ctx: Ctx, s: Seq<FieldDef>, substs: Seq<Subst>, used: Seq<DefId>) -> (
    Result<Seq<JVal>, EncodeError>,
    Seq<DefId>,
)
    decreases s,
{
    if s.len() == 0 {
        (Result::Ok(Seq::empty()), used)
    } else {
        let (r0, u0) = fields_enc(ctx, s.drop_last(), substs, used);
        match r0 {
            Result::Ok(pre) => {
                let (r1, u1) = field_enc(ctx, s.last(), substs, u0);
                match r1 {
                    Result::Ok(v) => (Result::Ok(pre.push(v)), u1),
                    Result::Err(e) => (Result::Err(e), u1),
                }
            },
            Result::Err(e) => (Result::Err(e), u0),
        }
    }
}

/// The record for one variant: identifier, discriminant, fields in order,
/// constructor kind.
pub open spec fn variant_enc(ctx: Ctx, v: VariantDef, substs: Seq<Subst>, used: Seq<DefId>) -> Enc {
    let (rf, u1) = fields_enc(ctx, v.fields@, substs, used);
    match rf {
        Result::Err(e) => (Result::Err(e), u1),
        Result::Ok(fv) => (
            Result::Ok(
                crate::encode::obj4(
                    "name"@,
                    JVal::Str(ctx.path_of(v.did)),
                    "discr"@,
                    discr_jval(ctx, v.discr),
                    "fields"@,
                    JVal::Arr(fv),
                    "ctor_kind"@,
                    JVal::Str(ctor_kind_str(v.ctor_kind)),
                ),
            ),
            u1,
        ),
    }
}

pub open spec fn variants_enc(
    ctx: Ctx,
    s: Seq<VariantDef>,
    substs: Seq<Subst>,
    used: Seq<DefId>,
) -> (Result<Seq<JVal>, EncodeError>, Seq<DefId>)
    decreases s,
{
    if s.len() == 0 {
        (Result::Ok(Seq::empty()), used)
    } else {
        let (r0, u0) = variants_enc(ctx, s.drop_last(), substs, used);
        match r0 {
            Result::Ok(pre) => {
                let (r1, u1) = variant_enc(ctx, s.last(), substs, u0);
                match r1 {
                    Result::Ok(v) => (Result::Ok(pre.push(v)), u1),
                    Result::Err(e) => (Result::Err(e), u1),
                }
            },
            Result::Err(e) => (Result::Err(e), u0),
        }
    }
}

/// The full definition record of an aggregate: its identifier and all its
/// variants. This is the one place definitions, not references, are emitted.
pub open spec fn adt_enc(ctx: Ctx, a: AdtDef, substs: Seq<Subst>, used: Seq<DefId>) -> Enc {
    let (rv, u1) = variants_enc(ctx, a.variants@, substs, used);
    match rv {
        Result::Err(e) => (Result::Err(e), u1),
        Result::Ok(vv) => (
            Result::Ok(
                obj2("name"@, JVal::Str(ctx.path_of(a.did)), "variants"@, JVal::Arr(vv)),
            ),
            u1,
        ),
    }
}

proof fn lemma_fields_enc_err_app(
    ctx: Ctx,
    a: Seq<FieldDef>,
    b: Seq<FieldDef>,
    substs: Seq<Subst>,
    used: Seq<DefId>,
)
    requires
        fields_enc(ctx, a, substs, used).0 is Err,
    ensures
        fields_enc(ctx, a + b, substs, used) == fields_enc(ctx, a, substs, used),
    decreases b,
{
    if b.len() == 0 {
        assert(a + b =~= a);
    } else {
        assert((a + b).drop_last() =~= a + b.drop_last());
        assert((a + b).last() == b.last());
        lemma_fields_enc_err_app(ctx, a, b.drop_last(), substs, used);
    }
}

proof fn lemma_variants_enc_err_app(
    ctx: Ctx,
    a: Seq<VariantDef>,
    b: Seq<VariantDef>,
    substs: Seq<Subst>,
    used: Seq<DefId>,
)
    requires
        variants_enc(ctx, a, substs, used).0 is Err,
    ensures
        variants_enc(ctx, a + b, substs, used) == variants_enc(ctx, a, substs, used),
    decreases b,
{
    if b.len() == 0 {
        assert(a + b =~= a);
    } else {
        assert((a + b).drop_last() =~= a + b.drop_last());
        assert((a + b).last() == b.last());
        lemma_variants_enc_err_app(ctx, a, b.drop_last(), substs, used);
    }
}

proof fn lemma_fields_wf_index(ctx: Ctx, s: Seq<FieldDef>, i: int)
    requires
        fields_wf(ctx, s),
        0 <= i < s.len(),
    ensures
        field_wf(ctx, s[i]),
    decreases s,
{
    if i < s.len() - 1 {
        lemma_fields_wf_index(ctx, s.drop_last(), i);
    }
}

proof fn lemma_variants_wf_index(ctx: Ctx, s: Seq<VariantDef>, i: int)
    requires
        variants_wf(ctx, s),
        0 <= i < s.len(),
    ensures
        variant_wf(ctx, s[i]),
    decreases s,
{
    if i < s.len() - 1 {
        lemma_variants_wf_index(ctx, s.drop_last(), i);
    }
}

/// Encodes one field.
pub fn field_json(ctx: &Ctx, used: &mut Vec<DefId>, f: &FieldDef, substs: &Vec<Subst>) -> (r:
    Result<JsonValue, EncodeError>)
    requires
        ctx.wf(),
        field_wf(*ctx, *f),
        substs_wf(ctx.n(), substs@),
    ensures
        res_view(r) == field_enc(*ctx, *f, substs@, old(used)@).0,
        final(used)@ == field_enc(*ctx, *f, substs@, old(used)@).1,
{
    let name = defid_str(ctx, f.did);
    let tv = match defid_ty(ctx, used, f.did) {
        Result::Ok(v) => v,
        Result::Err(e) => {
            return Result::Err(e);
        },
    };
    match substs_json(ctx, used, substs) {
        Result::Ok(items) => Result::Ok(
            obj3_json(
                "name",
                JsonValue::Str(name),
                "ty",
                tv,
                "substs",
                JsonValue::Arr(items),
            ),
        ),
        Result::Err(e) => Result::Err(e),
    }
}

/// Encodes the fields of one variant, in order.
pub fn fields_json(ctx: &Ctx, used: &mut Vec<DefId>, fs: &Vec<FieldDef>, substs: &Vec<Subst>) -> (r:
    Result<Vec<JsonValue>, EncodeError>)
    requires
        ctx.wf(),
        fields_wf(*ctx, fs@),
        substs_wf(ctx.n(), substs@),
    ensures
        match r {
            Result::Ok(items) => fields_enc(*ctx, fs@, substs@, old(used)@).0 == Result::<
                Seq<JVal>,
                EncodeError,
            >::Ok(jvals_of(items@)),
            Result::Err(e) => fields_enc(*ctx, fs@, substs@, old(used)@).0 == Result::<
                Seq<JVal>,
                EncodeError,
            >::Err(e),
        },
        final(used)@ == fields_enc(*ctx, fs@, substs@, old(used)@).1,
{
    let ghost used0 = old(used)@;
    let mut out: Vec<JsonValue> = Vec::new();
    let mut i: usize = 0;
    while i < fs.len()
        invariant
            ctx.wf(),
            i <= fs@.len(),
            fields_wf(*ctx, fs@),
            substs_wf(ctx.n(), substs@),
            used0 == old(used)@,
            fields_enc(*ctx, fs@.take(i as int), substs@, used0) == (
                Result::<Seq<JVal>, EncodeError>::Ok(jvals_of(out@)),
                used@,
            ),
        decreases fs@.len() - i,
    {
        let ghost pre = fs@.take(i as int);
        assert(fs@[i as int] == fs@.take(i + 1)[i as int]);
        proof {
            lemma_fields_wf_index(*ctx, fs@, i as int);
        }
        let ghost out_pre = out@;
        let v = match field_json(ctx, used, &fs[i], substs) {
            Result::Ok(v) => v,
            Result::Err(e) => {
                proof {
                    assert(fs@.take(i + 1).drop_last() =~= pre);
                    assert(fs@.take(i + 1).last() == fs@[i as int]);
                    lemma_fields_enc_err_app(*ctx, fs@.take(i + 1), fs@.skip(i + 1), substs@, used0);
                    assert(fs@.take(i + 1) + fs@.skip(i + 1) =~= fs@);
                }
                return Result::Err(e);
            },
        };
        let ghost vv: JsonValue = v;
        out.push(v);
        i = i + 1;
        proof {
            assert(fs@.take(i as int).drop_last() =~= pre);
            assert(fs@.take(i as int).last() == fs@[i - 1]);
            lemma_jvals_of_push(out_pre, vv);
        }
    }
    proof {
        assert(fs@.take(fs@.len() as int) =~= fs@);
    }
    Result::Ok(out)
}

/// Encodes one variant.
pub fn variant_json(ctx: &Ctx, used: &mut Vec<DefId>, v: &VariantDef, substs: &Vec<Subst>) -> (r:
    Result<JsonValue, EncodeError>)
    requires
        ctx.wf(),
        variant_wf(*ctx, *v),
        substs_wf(ctx.n(), substs@),
    ensures
        res_view(r) == variant_enc(*ctx, *v, substs@, old(used)@).0,
        final(used)@ == variant_enc(*ctx, *v, substs@, old(used)@).1,
{
    let name = defid_str(ctx, v.did);
    let dv = variant_discr_json(ctx, v.discr);
    match fields_json(ctx, used, &v.fields, substs) {
        Result::Ok(items) => Result::Ok(
            crate::encode::obj4_json(
                "name",
                JsonValue::Str(name),
                "discr",
                dv,
                "fields",
                JsonValue::Arr(items),
                "ctor_kind",
                ctor_kind_json(v.ctor_kind),
            ),
        ),
        Result::Err(e) => Result::Err(e),
    }
}

/// Encodes the variants of one aggregate, in order.
pub fn variants_json(ctx: &Ctx, used: &mut Vec<DefId>, vs: &Vec<VariantDef>, substs: &Vec<Subst>)
    -> (r: Result<Vec<JsonValue>, EncodeError>)
    requires
        ctx.wf(),
        variants_wf(*ctx, vs@),
        substs_wf(ctx.n(), substs@),
    ensures
        match r {
            Result::Ok(items) => variants_enc(*ctx, vs@, substs@, old(used)@).0 == Result::<
                Seq<JVal>,
                EncodeError,
            >::Ok(jvals_of(items@)),
            Result::Err(e) => variants_enc(*ctx, vs@, substs@, old(used)@).0 == Result::<
                Seq<JVal>,
                EncodeError,
            >::Err(e),
        },
        final(used)@ == variants_enc(*ctx, vs@, substs@, old(used)@).1,
{
    let ghost used0 = old(used)@;
    let mut out: Vec<JsonValue> = Vec::new();
    let mut i: usize = 0;
    while i < vs.len()
        invariant
            ctx.wf(),
            i <= vs@.len(),
            variants_wf(*ctx, vs@),
            substs_wf(ctx.n(), substs@),
            used0 == old(used)@,
            variants_enc(*ctx, vs@.take(i as int), substs@, used0) == (
                Result::<Seq<JVal>, EncodeError>::Ok(jvals_of(out@)),
                used@,
            ),
        decreases vs@.len() - i,
    {
        let ghost pre = vs@.take(i as int);
        assert(vs@[i as int] == vs@.take(i + 1)[i as int]);
        proof {
            lemma_variants_wf_index(*ctx, vs@, i as int);
        }
        let ghost out_pre = out@;
        let v = match variant_json(ctx, used, &vs[i], substs) {
            Result::Ok(v) => v,
            Result::Err(e) => {
                proof {
                    assert(vs@.take(i + 1).drop_last() =~= pre);
                    assert(vs@.take(i + 1).last() == vs@[i as int]);
                    lemma_variants_enc_err_app(
                        *ctx,
                        vs@.take(i + 1),
                        vs@.skip(i + 1),
                        substs@,
                        used0,
                    );
                    assert(vs@.take(i + 1) + vs@.skip(i + 1) =~= vs@);
                }
                return Result::Err(e);
            },
        };
        let ghost vv: JsonValue = v;
        out.push(v);
        i = i + 1;
        proof {
            assert(vs@.take(i as int).drop_last() =~= pre);
            assert(vs@.take(i as int).last() == vs@[i - 1]);
            lemma_jvals_of_push(out_pre, vv);
        }
    }
    proof {
        assert(vs@.take(vs@.len() as int) =~= vs@);
    }
    Result::Ok(out)
}

/// Encodes the full definition of one aggregate.
pub fn adt_json(ctx: &Ctx, used: &mut Vec<DefId>, a: &AdtDef, substs: &Vec<Subst>) -> (r: Result<
    JsonValue,
    EncodeError,
>)
    requires
        ctx.wf(),
        adt_wf(*ctx, *a),
        substs_wf(ctx.n(), substs@),
    ensures
        res_view(r) == adt_enc(*ctx, *a, substs@, old(used)@).0,
        final(used)@ == adt_enc(*ctx, *a, substs@, old(used)@).1,
{
    let name = defid_str(ctx, a.did);
    match variants_json(ctx, used, &a.variants, substs) {
        Result::Ok(items) => Result::Ok(
            obj2_json("name", JsonValue::Str(name), "variants", JsonValue::Arr(items)),
        ),
        Result::Err(e) => Result::Err(e),
    }
}

/// Encoding an aggregate-definition participant at a given instantiation.
/// Each implementation says what its record is (`ag_enc`) and what it needs
/// of the context (`ag_wf`); `tojson` produces exactly that record. The
/// mapping over a whole field or variant list is [`fields_json`] and
/// [`variants_json`].
pub trait ToJsonAg: Sized {
    spec fn ag_wf(&self, ctx: Ctx) -> bool;

    spec fn ag_enc(&self, ctx: Ctx, substs: Seq<Subst>, used: Seq<DefId>) -> Enc;

    fn tojson(&self, ctx: &Ctx, used: &mut Vec<DefId>, substs: &Vec<Subst>) -> (r: Result<
        JsonValue,
        EncodeError,
    >)
        requires
            ctx.wf(),
            self.ag_wf(*ctx),
            substs_wf(ctx.n(), substs@),
        ensures
            res_view(r) == self.ag_enc(*ctx, substs@, old(used)@).0,
            final(used)@ == self.ag_enc(*ctx, substs@, old(used)@).1,
    ;
}

impl ToJsonAg for AdtDef {
    open spec fn ag_wf(&self, ctx: Ctx) -> bool {
        adt_wf(ctx, *self)
    }

    open spec fn ag_enc(&self, ctx: Ctx, substs: Seq<Subst>, used: Seq<DefId>) -> Enc {
        adt_enc(ctx, *self, substs, used)
    }

    fn tojson(&self, ctx: &Ctx, used: &mut Vec<DefId>, substs: &Vec<Subst>) -> (r: Result<
        JsonValue,
        EncodeError,
    >) {
        adt_json(ctx, used, self, substs)
    }
}

impl ToJsonAg for VariantDef {
    open spec fn ag_wf(&self, ctx: Ctx) -> bool {
        variant_wf(ctx, *self)
    }

    open spec fn ag_enc(&self, ctx: Ctx, substs: Seq<Subst>, used: Seq<DefId>) -> Enc {
        variant_enc(ctx, *self, substs, used)
    }

    fn tojson(&self, ctx: &Ctx, used: &mut Vec<DefId>, substs: &Vec<Subst>) -> (r: Result<
        JsonValue,
        EncodeError,
    >) {
        variant_json(ctx, used, self, substs)
    }
}

impl ToJsonAg for FieldDef {
    open spec fn ag_wf(&self, ctx: Ctx) -> bool {
        field_wf(ctx, *self)
    }

    open spec fn ag_enc(&self, ctx: Ctx, substs: Seq<Subst>, used: Seq<DefId>) -> Enc {
        field_enc(ctx, *self, substs, used)
    }

    fn tojson(&self, ctx: &Ctx, used: &mut Vec<DefId>, substs: &Vec<Subst>) -> (r: Result<
        JsonValue,
        EncodeError,
    >) {
        field_json(ctx, used, self, substs)
    }
}

/// Recognises the aggregate-construction kind this encoder handles.
pub fn is_adt_ak(ak: &AggregateKind) -> (r: bool)
    ensures
        r == (*ak matches AggregateKind::Adt(_, _, _)),
{
    match ak {
        AggregateKind::Adt(_, _, _) => true,
        _ => false,
    }
}

/// The record of one operand; only constants have a modelled form, any
/// other operand degrades to a placeholder record.
pub open spec fn operand_enc(ctx: Ctx, op: Operand, used: Seq<DefId>) -> Enc
    decreases op,
{
    match op {
        Operand::Constant(c) => {
            let (rc, u1) = const_enc(ctx, c, used);
            match rc {
                Result::Ok(cv) => (
                    Result::Ok(obj2("kind"@, JVal::Str("Constant"@), "data"@, cv)),
                    u1,
                ),
                Result::Err(e) => (Result::Err(e), u1),
            }
        },
        Operand::Other => (Result::Ok(obj1("kind"@, JVal::Str("Unsupported"@))), used),
    }
}

pub open spec fn operands_enc(ctx: Ctx, s: Seq<Operand>, used: Seq<DefId>) -> (
    Result<Seq<JVal>, EncodeError>,
    Seq<DefId>,
)
    decreases s,
{
    if s.len() == 0 {
        (Result::Ok(Seq::empty()), used)
    } else {
        let (r0, u0) = operands_enc(ctx, s.drop_last(), used);
        match r0 {
            Result::Ok(pre) => {
                let (r1, u1) = operand_enc(ctx, s.last(), u0);
                match r1 {
                    Result::Ok(v) => (Result::Ok(pre.push(v)), u1),
                    Result::Err(e) => (Result::Err(e), u1),
                }
            },
            Result::Err(e) => (Result::Err(e), u0),
        }
    }
}

pub open spec fn operand_wf(ctx: Ctx, op: Operand) -> bool
    decreases op,
{
    match op {
        Operand::Constant(c) => const_wf(ctx.n(), c),
        Operand::Other => true,
    }
}

pub open spec fn operands_wf(ctx: Ctx, s: Seq<Operand>) -> bool
    decreases s,
{
    s.len() == 0 || (operands_wf(ctx, s.drop_last()) && operand_wf(ctx, s.last()))
}

proof fn lemma_operands_wf_index(ctx: Ctx, s: Seq<Operand>, i: int)
    requires
        operands_wf(ctx, s),
        0 <= i < s.len(),
    ensures
        operand_wf(ctx, s[i]),
    decreases s,
{
    if i < s.len() - 1 {
        lemma_operands_wf_index(ctx, s.drop_last(), i);
    }
}

proof fn lemma_operands_enc_err_app(ctx: Ctx, a: Seq<Operand>, b: Seq<Operand>, used: Seq<DefId>)
    requires
        operands_enc(ctx, a, used).0 is Err,
    ensures
        operands_enc(ctx, a + b, used) == operands_enc(ctx, a, used),
    decreases b,
{
    if b.len() == 0 {
        assert(a + b =~= a);
    } else {
        assert((a + b).drop_last() =~= a + b.drop_last());
        assert((a + b).last() == b.last());
        lemma_operands_enc_err_app(ctx, a, b.drop_last(), used);
    }
}

/// Encodes one operand.
pub fn operand_json(ctx: &Ctx, used: &mut Vec<DefId>, op: &Operand) -> (r: Result<
    JsonValue,
    EncodeError,
>)
    requires
        ctx.wf(),
        operand_wf(*ctx, *op),
    ensures
        res_view(r) == operand_enc(*ctx, *op, old(used)@).0,
        final(used)@ == operand_enc(*ctx, *op, old(used)@).1,
{
    match op {
        Operand::Constant(c) => match const_json(ctx, used, c) {
            Result::Ok(cv) => Result::Ok(obj2_json("kind", jstr("Constant"), "data", cv)),
            Result::Err(e) => Result::Err(e),
        },
        Operand::Other => Result::Ok(obj1_json("kind", jstr("Unsupported"))),
    }
}

/// Encodes a list of operands, in order.
pub fn ops_json(ctx: &Ctx, used: &mut Vec<DefId>, opv: &Vec<Operand>) -> (r: Result<
    Vec<JsonValue>,
    EncodeError,
>)
    requires
        ctx.wf(),
        operands_wf(*ctx, opv@),
    ensures
        match r {
            Result::Ok(items) => operands_enc(*ctx, opv@, old(used)@).0 == Result::<
                Seq<JVal>,
                EncodeError,
            >::Ok(jvals_of(items@)),
            Result::Err(e) => operands_enc(*ctx, opv@, old(used)@).0 == Result::<
                Seq<JVal>,
                EncodeError,
            >::Err(e),
        },
        final(used)@ == operands_enc(*ctx, opv@, old(used)@).1,
{
    let ghost used0 = old(used)@;
    let mut out: Vec<JsonValue> = Vec::new();
    let mut i: usize = 0;
    while i < opv.len()
        invariant
            ctx.wf(),
            i <= opv@.len(),
            operands_wf(*ctx, opv@),
            used0 == old(used)@,
            operands_enc(*ctx, opv@.take(i as int), used0) == (
                Result::<Seq<JVal>, EncodeError>::Ok(jvals_of(out@)),
                used@,
            ),
        decreases opv@.len() - i,
    {
        let ghost pre = opv@.take(i as int);
        assert(opv@[i as int] == opv@.take(i + 1)[i as int]);
        proof {
            lemma_operands_wf_index(*ctx, opv@, i as int);
        }
        let ghost out_pre = out@;
        let v = match operand_json(ctx, used, &opv[i]) {
            Result::Ok(v) => v,
            Result::Err(e) => {
                proof {
                    assert(opv@.take(i + 1).drop_last() =~= pre);
                    assert(opv@.take(i + 1).last() == opv@[i as int]);
                    lemma_operands_enc_err_app(*ctx, opv@.take(i + 1), opv@.skip(i + 1), used0);
                    assert(opv@.take(i + 1) + opv@.skip(i + 1) =~= opv@);
                }
                return Result::Err(e);
            },
        };
        let ghost vv: JsonValue = v;
        out.push(v);
        i = i + 1;
        proof {
            assert(opv@.take(i as int).drop_last() =~= pre);
            assert(opv@.take(i as int).last() == opv@[i - 1]);
            lemma_jvals_of_push(out_pre, vv);
        }
    }
    proof {
        assert(opv@.take(opv@.len() as int) =~= opv@);
    }
    Result::Ok(out)
}

/// What encoding an aggregate construction yields: the full definition of
/// the constructed aggregate, the selected variant's index, and the operands.
pub open spec fn adt_ag_enc(ctx: Ctx, ak: AggregateKind, ops: Seq<Operand>, used: Seq<DefId>) -> Enc {
    match ak {
        AggregateKind::Adt(adt, variant_idx, substs) => {
            let (ra, u1) = adt_enc(ctx, adt, substs@, used);
            match ra {
                Result::Err(e) => (Result::Err(e), u1),
                Result::Ok(av) => {
                    let (ro, u2) = operands_enc(ctx, ops, u1);
                    match ro {
                        Result::Err(e) => (Result::Err(e), u2),
                        Result::Ok(ov) => (
                            Result::Ok(
                                obj3(
                                    "adt"@,
                                    av,
                                    "variant"@,
                                    JVal::Num(variant_idx as nat),
                                    "ops"@,
                                    JVal::Arr(ov),
                                ),
                            ),
                            u2,
                        ),
                    }
                },
            }
        },
        AggregateKind::Other => (Result::Ok(JVal::Num(0)), used),
    }
}

/// Encodes an aggregate construction. Only the `Adt` kind reaches this
/// encoder; [`is_adt_ak`] is the caller's test.
#[verifier::rlimit(100)]
pub fn handle_adt_ag(ctx: &Ctx, used: &mut Vec<DefId>, ak: &AggregateKind, opv: &Vec<Operand>) -> (r:
    Result<JsonValue, EncodeError>)
    requires
        ctx.wf(),
        *ak matches AggregateKind::Adt(adt, _, substs) && adt_wf(*ctx, adt) && substs_wf(
            ctx.n(),
            substs@,
        ),
        operands_wf(*ctx, opv@),
    ensures
        res_view(r) == adt_ag_enc(*ctx, *ak, opv@, old(used)@).0,
        final(used)@ == adt_ag_enc(*ctx, *ak, opv@, old(used)@).1,
{
    match ak {
        AggregateKind::Adt(adt, variant_idx, substs) => {
            let av = match adt_json(ctx, used, adt, substs) {
                Result::Ok(v) => v,
                Result::Err(e) => {
                    return Result::Err(e);
                },
            };
            let out = match ops_json(ctx, used, opv) {
                Result::Ok(items) => items,
                Result::Err(e) => {
                    return Result::Err(e);
                },
            };
            Result::Ok(
                obj3_json(
                    "adt",
                    av,
                    "variant",
                    JsonValue::Num(*variant_idx as u128),
                    "ops",
                    JsonValue::Arr(out),
                ),
            )
        },
        AggregateKind::Other => {
            proof {
                assert(false);
            }
            Result::Err(EncodeError::ScalarMissing)
        },
    }
}

/// The whole flattened list splits at any chain position: what position `j`
/// flattens to, followed by what the entries below it will emit.
pub proof fn lemma_flatten_preds_at(ctx: Ctx, ch: Seq<DefId>, j: int)
    requires
        chain_ok(ctx, ch[0], ch),
        0 <= j < ch.len(),
    ensures
        flatten_preds(ctx, ch[0]) == flatten_preds(ctx, ch[j]) + pending_preds(ctx, ch, j),
    decreases j,
{
    if j == 0 {
        assert(flatten_preds(ctx, ch[0]) =~= flatten_preds(ctx, ch[0]) + pending_preds(
            ctx,
            ch,
            0,
        ));
    } else {
        lemma_flatten_preds_at(ctx, ch, j - 1);
        assert(ctx.defs@[ch[j - 1] as int].parent == Option::Some(ch[j]));
        assert(ch[j] < ch[j - 1]);
        assert(flatten_preds(ctx, ch[j - 1]) == flatten_preds(ctx, ch[j]) + ctx.defs@[ch[j
            - 1] as int].own_preds@);
        assert(flatten_preds(ctx, ch[j]) + pending_preds(ctx, ch, j) =~= (flatten_preds(ctx, ch[j])
            + ctx.defs@[ch[j - 1] as int].own_preds@) + pending_preds(ctx, ch, j - 1));
    }
}

} // verus!
