//! The general properties the library states of itself.
//!
//! Each proof function here is a law of the encoders: how flattened generic
//! lists compose, that a type reference never carries definition data, that
//! the used-types side-table stays duplicate-free, that encoding is a
//! function of the context and the node alone, and when an associated item
//! carries an `implements` link.

use vstd::prelude::*;
use crate::ir::{AssocItem, Const, ConstVal, Ctx, DefId, FnSig, Subst, Ty};
use crate::json::{JVal, obj_has_key, obj_keys};
use crate::encode::{
    insert_new, sig_enc, subst_enc, substs_enc, ty_enc, tys_enc, flatten_params, flatten_preds,
};
use crate::consts::{const_enc, initializer_enc};
use crate::items::{assoc_enc, implements_of};

verus! {

/// A flattened list is the parent's flattened list followed by the
/// definition's own entries; a root definition's list is its own entries
/// alone. Positions in this list are what `Param` indices resolve by, so
/// the generics and the predicates compose in the same order.
pub proof fn lemma_flatten_parent(ctx: Ctx, d: DefId)
    requires
        ctx.wf(),
        d < ctx.defs@.len(),
    ensures
        ctx.defs@[d as int].parent matches Option::Some(p) ==> {
            &&& flatten_params(ctx, d) == flatten_params(ctx, p) + ctx.defs@[d as int].own_params@
            &&& flatten_preds(ctx, d) == flatten_preds(ctx, p) + ctx.defs@[d as int].own_preds@
            &&& flatten_params(ctx, d).len() == flatten_params(ctx, p).len()
                + ctx.defs@[d as int].own_params@.len()
        },
        ctx.defs@[d as int].parent is None ==> {
            &&& flatten_params(ctx, d) =~= ctx.defs@[d as int].own_params@
            &&& flatten_preds(ctx, d) =~= ctx.defs@[d as int].own_preds@
        },
{
    assert(ctx.defs@[d as int].wf(ctx.n(), d as int));
}

/// Every positional `Param` reference in the type lies below `m`: the index
/// resolves into a flattened parameter list of length `m`.
pub open spec fn ty_params_lt(m: int, t: Ty) -> bool
    decreases t,
{
    match t {
        Ty::Param(i) => i < m,
        Ty::Tuple(tys) => tys_params_lt(m, tys@),
        Ty::Array(t2, c) => ty_params_lt(m, *t2) && const_params_lt(m, *c),
        Ty::Slice(t2) => ty_params_lt(m, *t2),
        Ty::Ref(t2, _) => ty_params_lt(m, *t2),
        Ty::RawPtr(t2, _) => ty_params_lt(m, *t2),
        Ty::Adt(_, s) => substs_params_lt(m, s@),
        Ty::FnDef(_, s) => substs_params_lt(m, s@),
        Ty::FnPtr(sig) => sig_params_lt(m, sig),
        Ty::Closure(_, s) => substs_params_lt(m, s@),
        Ty::Projection(p) => substs_params_lt(m, p.substs@),
        Ty::UnnormalizedProjection(p) => substs_params_lt(m, p.substs@),
        _ => true,
    }
}

pub open spec fn tys_params_lt(m: int, s: Seq<Ty>) -> bool
    decreases s,
{
    s.len() == 0 || (tys_params_lt(m, s.drop_last()) && ty_params_lt(m, s.last()))
}

pub open spec fn subst_params_lt(m: int, su: Subst) -> bool
    decreases su,
{
    match su {
        Subst::TyArg(t) => ty_params_lt(m, t),
        Subst::Lifetime => true,
    }
}

pub open spec fn substs_params_lt(m: int, s: Seq<Subst>) -> bool
    decreases s,
{
    s.len() == 0 || (substs_params_lt(m, s.drop_last()) && subst_params_lt(m, s.last()))
}

pub open spec fn const_params_lt(m: int, c: Const) -> bool
    decreases c,
{
    ty_params_lt(m, c.ty) && match c.val {
        ConstVal::Unevaluated(_, s) => substs_params_lt(m, s@),
        _ => true,
    }
}

pub open spec fn sig_params_lt(m: int, sig: FnSig) -> bool
    decreases sig,
{
    tys_params_lt(m, sig.inputs@) && ty_params_lt(m, *sig.output)
}

/// Every `Param` index in any definition's declared type or signature
/// resolves inside that definition's flattened parameter list.
pub open spec fn params_in_range(ctx: Ctx) -> bool {
    forall|d: int|
        0 <= d < ctx.n() ==> {
            &&& ((#[trigger] ctx.defs@[d]).ty matches Option::Some(t) ==> ty_params_lt(
                flatten_params(ctx, d as DefId).len() as int,
                t,
            ))
            &&& (ctx.defs@[d].sig matches Option::Some(s) ==> sig_params_lt(
                flatten_params(ctx, d as DefId).len() as int,
                s,
            ))
        }
}

/// In a context whose positional references resolve, every `Param` index in
/// a definition's own type and signature lies below the length of its
/// flattened list — which is the parent's length plus its own parameters.
pub proof fn lemma_param_indices_in_range(ctx: Ctx, d: DefId)
    requires
        ctx.wf(),
        params_in_range(ctx),
        d < ctx.defs@.len(),
    ensures
        ctx.defs@[d as int].ty matches Option::Some(t) ==> ty_params_lt(
            flatten_params(ctx, d).len() as int,
            t,
        ),
        ctx.defs@[d as int].sig matches Option::Some(s) ==> sig_params_lt(
            flatten_params(ctx, d).len() as int,
            s,
        ),
        ctx.defs@[d as int].parent matches Option::Some(p) ==> flatten_params(ctx, d).len()
            == flatten_params(ctx, p).len() + ctx.defs@[d as int].own_params@.len(),
{
    lemma_flatten_parent(ctx, d);
}

/// No table ever holds one definition twice.
pub open spec fn no_dups(s: Seq<DefId>) -> bool {
    forall|i: int, j: int| 0 <= i < j < s.len() ==> s[i] != s[j]
}

/// The table only grows at its end, keeps what it had, and stays
/// duplicate-free.
pub open spec fn used_extends(a: Seq<DefId>, b: Seq<DefId>) -> bool {
    &&& a.len() <= b.len()
    &&& b.take(a.len() as int) == a
    &&& (no_dups(a) ==> no_dups(b))
}

proof fn lemma_extends_trans(a: Seq<DefId>, b: Seq<DefId>, c: Seq<DefId>)
    requires
        used_extends(a, b),
        used_extends(b, c),
    ensures
        used_extends(a, c),
{
    assert(c.take(a.len() as int) =~= c.take(b.len() as int).take(a.len() as int));
}

proof fn lemma_insert_new_extends(a: Seq<DefId>, d: DefId)
    ensures
        used_extends(a, insert_new(a, d)),
        insert_new(a, d).contains(d),
{
    if !a.contains(d) {
        assert(a.push(d).take(a.len() as int) =~= a);
        assert(a.push(d)[a.len() as int] == d);
        if no_dups(a) {
            assert forall|i: int, j: int|
                0 <= i < j < a.push(d).len() implies a.push(d)[i] != a.push(d)[j] by {
                if j < a.len() {
                } else {
                    assert(a.push(d)[i] == a[i]);
                    assert(!a.contains(d) ==> a[i] != d);
                }
            }
        }
    } else {
        assert(a.take(a.len() as int) =~= a);
    }
}

proof fn lemma_extends_keeps(a: Seq<DefId>, b: Seq<DefId>, d: DefId)
    requires
        used_extends(a, b),
        a.contains(d),
    ensures
        b.contains(d),
{
    let i = choose|i: int| 0 <= i < a.len() && a[i] == d;
    assert(b.take(a.len() as int)[i] == d);
    assert(b[i] == d);
}

/// Encoding a type keeps the side-table's shape, and the record it emits
/// does not depend on the table: the whole encoding is a function of the
/// context and the node alone.
pub proof fn lemma_ty_enc_props(ctx: Ctx, t: Ty, u1: Seq<DefId>, u2: Seq<DefId>)
    ensures
        used_extends(u1, ty_enc(ctx, t, u1).1),
        ty_enc(ctx, t, u1).0 == ty_enc(ctx, t, u2).0,
    decreases t,
{
    match t {
        Ty::Tuple(tys) => {
            lemma_tys_enc_props(ctx, tys@, u1, u2);
        },
        Ty::Slice(t2) => {
            lemma_ty_enc_props(ctx, *t2, u1, u2);
        },
        Ty::Array(t2, c) => {
            lemma_ty_enc_props(ctx, *t2, u1, u2);
            lemma_const_enc_props(ctx, *c, ty_enc(ctx, *t2, u1).1, ty_enc(ctx, *t2, u2).1);
            if ty_enc(ctx, *t2, u1).0 is Ok {
                lemma_extends_trans(
                    u1,
                    ty_enc(ctx, *t2, u1).1,
                    const_enc(ctx, *c, ty_enc(ctx, *t2, u1).1).1,
                );
            }
        },
        Ty::Ref(t2, _) => {
            lemma_ty_enc_props(ctx, *t2, u1, u2);
        },
        Ty::RawPtr(t2, _) => {
            lemma_ty_enc_props(ctx, *t2, u1, u2);
        },
        Ty::Adt(d, s) => {
            lemma_insert_new_extends(u1, d);
            lemma_substs_enc_props(ctx, s@, insert_new(u1, d), insert_new(u2, d));
            lemma_extends_trans(
                u1,
                insert_new(u1, d),
                substs_enc(ctx, s@, insert_new(u1, d)).1,
            );
        },
        Ty::FnDef(d, s) => {
            lemma_substs_enc_props(ctx, s@, u1, u2);
        },
        Ty::FnPtr(sig) => {
            lemma_sig_enc_props(ctx, sig, u1, u2);
        },
        Ty::Closure(d, s) => {
            lemma_substs_enc_props(ctx, s@, u1, u2);
        },
        Ty::Projection(p) => {
            lemma_substs_enc_props(ctx, p.substs@, u1, u2);
        },
        Ty::UnnormalizedProjection(p) => {
            lemma_substs_enc_props(ctx, p.substs@, u1, u2);
        },
        _ => {
            assert(u1.take(u1.len() as int) =~= u1);
        },
    }
}

pub proof fn lemma_tys_enc_props(ctx: Ctx, s: Seq<Ty>, u1: Seq<DefId>, u2: Seq<DefId>)
    ensures
        used_extends(u1, tys_enc(ctx, s, u1).1),
        tys_enc(ctx, s, u1).0 == tys_enc(ctx, s, u2).0,
    decreases s,
{
    if s.len() == 0 {
        assert(u1.take(u1.len() as int) =~= u1);
    } else {
        lemma_tys_enc_props(ctx, s.drop_last(), u1, u2);
        let m1 = tys_enc(ctx, s.drop_last(), u1).1;
        let m2 = tys_enc(ctx, s.drop_last(), u2).1;
        lemma_ty_enc_props(ctx, s.last(), m1, m2);
        if tys_enc(ctx, s.drop_last(), u1).0 is Ok {
            lemma_extends_trans(u1, m1, ty_enc(ctx, s.last(), m1).1);
        }
    }
}

pub proof fn lemma_subst_enc_props(ctx: Ctx, su: Subst, u1: Seq<DefId>, u2: Seq<DefId>)
    ensures
        used_extends(u1, subst_enc(ctx, su, u1).1),
        subst_enc(ctx, su, u1).0 == subst_enc(ctx, su, u2).0,
    decreases su,
{
    match su {
        Subst::TyArg(t) => {
            lemma_ty_enc_props(ctx, t, u1, u2);
        },
        Subst::Lifetime => {
            assert(u1.take(u1.len() as int) =~= u1);
        },
    }
}

pub proof fn lemma_substs_enc_props(ctx: Ctx, s: Seq<Subst>, u1: Seq<DefId>, u2: Seq<DefId>)
    ensures
        used_extends(u1, substs_enc(ctx, s, u1).1),
        substs_enc(ctx, s, u1).0 == substs_enc(ctx, s, u2).0,
    decreases s,
{
    if s.len() == 0 {
        assert(u1.take(u1.len() as int) =~= u1);
    } else {
        lemma_substs_enc_props(ctx, s.drop_last(), u1, u2);
        let m1 = substs_enc(ctx, s.drop_last(), u1).1;
        let m2 = substs_enc(ctx, s.drop_last(), u2).1;
        lemma_subst_enc_props(ctx, s.last(), m1, m2);
        if substs_enc(ctx, s.drop_last(), u1).0 is Ok {
            lemma_extends_trans(u1, m1, subst_enc(ctx, s.last(), m1).1);
        }
    }
}

pub proof fn lemma_sig_enc_props(ctx: Ctx, sig: FnSig, u1: Seq<DefId>, u2: Seq<DefId>)
    ensures
        used_extends(u1, sig_enc(ctx, sig, u1).1),
        sig_enc(ctx, sig, u1).0 == sig_enc(ctx, sig, u2).0,
    decreases sig,
{
    lemma_tys_enc_props(ctx, sig.inputs@, u1, u2);
    let m1 = tys_enc(ctx, sig.inputs@, u1).1;
    let m2 = tys_enc(ctx, sig.inputs@, u2).1;
    lemma_ty_enc_props(ctx, *sig.output, m1, m2);
    if tys_enc(ctx, sig.inputs@, u1).0 is Ok {
        lemma_extends_trans(u1, m1, ty_enc(ctx, *sig.output, m1).1);
    }
}

pub proof fn lemma_const_enc_props(ctx: Ctx, c: Const, u1: Seq<DefId>, u2: Seq<DefId>)
    ensures
        used_extends(u1, const_enc(ctx, c, u1).1),
        const_enc(ctx, c, u1).0 == const_enc(ctx, c, u2).0,
    decreases c,
{
    lemma_ty_enc_props(ctx, c.ty, u1, u2);
    let m1 = ty_enc(ctx, c.ty, u1).1;
    let m2 = ty_enc(ctx, c.ty, u2).1;
    lemma_init_enc_props(ctx, c.val, m1, m2);
    if ty_enc(ctx, c.ty, u1).0 is Ok {
        lemma_extends_trans(u1, m1, initializer_enc(ctx, c.val, m1).1);
    }
}

pub proof fn lemma_init_enc_props(ctx: Ctx, v: ConstVal, u1: Seq<DefId>, u2: Seq<DefId>)
    ensures
        used_extends(u1, initializer_enc(ctx, v, u1).1),
        initializer_enc(ctx, v, u1).0 == initializer_enc(ctx, v, u2).0,
    decreases v,
{
    match v {
        ConstVal::Unevaluated(d, s) => {
            lemma_substs_enc_props(ctx, s@, u1, u2);
        },
        _ => {
            assert(u1.take(u1.len() as int) =~= u1);
        },
    }
}

/// A type reference to an aggregate emits only the kind tag, the identifier
/// and the substitution — never variant or field data — and records the
/// aggregate in the side-table, which stays duplicate-free: across one pass
/// each referenced aggregate is listed exactly once.
pub proof fn lemma_adt_reference(ctx: Ctx, t: Ty, used: Seq<DefId>)
    requires
        t matches Ty::Adt(_, _),
    ensures
        t matches Ty::Adt(d, _) ==> ty_enc(ctx, t, used).1.contains(d),
        no_dups(used) ==> no_dups(ty_enc(ctx, t, used).1),
        ty_enc(ctx, t, used).0 matches Result::Ok(v) ==> v matches JVal::Obj(fields) && obj_keys(
            fields,
        ) =~= seq!["kind"@, "name"@, "substs"@],
{
    let (d, s) = match t {
        Ty::Adt(d, s) => (d, s),
        _ => arbitrary(),
    };
    lemma_insert_new_extends(used, d);
    lemma_substs_enc_props(ctx, s@, insert_new(used, d), insert_new(used, d));
    lemma_extends_keeps(insert_new(used, d), substs_enc(ctx, s@, insert_new(used, d)).1, d);
    match ty_enc(ctx, t, used).0 {
        Result::Ok(v) => {
            assert(obj_keys(v->Obj_0) =~= seq!["kind"@, "name"@, "substs"@]);
        },
        Result::Err(_) => {},
    }
}

/// Encoding is deterministic: the same context and node give the same
/// record, whatever the side-table held before either pass.
pub proof fn lemma_encode_deterministic(ctx: Ctx, t: Ty, u1: Seq<DefId>, u2: Seq<DefId>)
    ensures
        ty_enc(ctx, t, u1).0 == ty_enc(ctx, t, u2).0,
{
    lemma_ty_enc_props(ctx, t, u1, u2);
}

/// An impl member of an impl of a trait that declares a member of the same
/// name carries an `implements` field naming that member; an inherent impl
/// member, and a trait's own member, never does.
pub proof fn lemma_implements_linkage(ctx: Ctx, item: AssocItem, used: Seq<DefId>)
    requires
        assoc_enc(ctx, item, used).0 is Ok,
    ensures
        assoc_enc(ctx, item, used).0 matches Result::Ok(v) ==> v matches JVal::Obj(fields) && {
            &&& implements_of(ctx, item) matches Option::Some(m) ==> fields.last() == (
                "implements"@,
                JVal::Str(ctx.path_of(m)),
            )
            &&& implements_of(ctx, item) is None ==> !obj_has_key(fields, "implements"@)
        },
{
    proof_strlit_distinct();
    let v = assoc_enc(ctx, item, used).0->Ok_0;
    let fields = v->Obj_0;
    match implements_of(ctx, item) {
        Option::Some(m) => {},
        Option::None => {
            assert forall|i: int| 0 <= i < fields.len() implies fields[i].0 != "implements"@ by {
            }
        },
    }
}

/// The fixed keys an associated-item record uses are pairwise distinct from
/// `implements`.
proof fn proof_strlit_distinct()
    ensures
        "name"@ != "implements"@,
        "generics"@ != "implements"@,
        "predicates"@ != "implements"@,
        "kind"@ != "implements"@,
        "type"@ != "implements"@,
        "signature"@ != "implements"@,
{
    reveal_strlit("name");
    reveal_strlit("generics");
    reveal_strlit("predicates");
    reveal_strlit("kind");
    reveal_strlit("type");
    reveal_strlit("signature");
    reveal_strlit("implements");
    assert(("name"@).len() == 4);
    assert(("generics"@).len() == 8);
    assert(("kind"@).len() == 4);
    assert(("type"@).len() == 4);
    assert(("signature"@).len() == 9);
    assert(("implements"@).len() == 10);
    assert(("predicates"@).len() == 10);
    assert(("predicates"@)[0] == 'p');
    assert(("implements"@)[0] == 'i');
}

} // verus!
