//! The slice of a compiler's elaborated representation that the encoders
//! read, modelled as plain data.
//!
//! Everything the encoders consume from the host — type nodes, definition
//! paths with parent linkage, generic parameter and predicate lists,
//! associated items, evaluated constants and the global allocation table —
//! is held in an explicit [`Ctx`] value that is passed by reference through
//! every encoding call. A definition is named by a [`DefId`], an index into
//! the context's definition table; its stable, crate-relative path string is
//! the identifier that all emitted cross-references use.

use vstd::prelude::*;

verus! {

/// Index of a definition in the context's definition table.
pub type DefId = usize;

#[derive(Clone, Copy, PartialEq, Eq, Structural, Debug)]
pub enum IntKind {
    Isize,
    I8,
    I16,
    I32,
    I64,
    I128,
}

#[derive(Clone, Copy, PartialEq, Eq, Structural, Debug)]
pub enum UintKind {
    Usize,
    U8,
    U16,
    U32,
    U64,
    U128,
}

#[derive(Clone, Copy, PartialEq, Eq, Structural, Debug)]
pub enum FloatKind {
    F32Kind,
    F64Kind,
}

#[derive(Clone, Copy, PartialEq, Eq, Structural, Debug)]
pub enum Mutability {
    MutMutable,
    MutImmutable,
}

#[derive(Clone, Copy, PartialEq, Eq, Structural, Debug)]
pub enum CtorKind {
    FnCtor,
    ConstCtor,
    Fictive,
}

#[derive(Clone, Copy, PartialEq, Eq, Structural, Debug)]
pub enum BorrowKind {
    Shared,
    Shallow,
    Unique,
    MutBorrow,
}

/// A pointer into the global constant-allocation table.
#[derive(Clone, Copy, PartialEq, Eq, Structural, Debug)]
pub struct Pointer {
    pub alloc_id: usize,
    pub offset: usize,
}

/// The value part of a constant: either already concrete, or a recipe
/// (definition plus substitution) for evaluating it.
#[derive(PartialEq, Eq, Debug)]
pub enum ConstVal {
    /// Not yet evaluated; the fields describe the initializer.
    Unevaluated(DefId, Vec<Subst>),
    /// A plain scalar: `size` bytes of `bits`.
    Bits { size: u8, bits: u128 },
    /// A lone pointer into static memory.
    Ptr(Pointer),
    /// A (pointer, scalar) pair, as a string slice's (data, length) is.
    PtrBits { ptr: Pointer, size: u8, bits: u128 },
    /// A value shape the encoders do not read.
    Opaque,
}

/// A typed constant.
#[derive(PartialEq, Eq, Debug)]
pub struct Const {
    pub ty: Ty,
    pub val: ConstVal,
}

/// One generic argument.
#[derive(PartialEq, Eq, Debug)]
pub enum Subst {
    TyArg(Ty),
    Lifetime,
}

/// A function signature, binders already discharged.
#[derive(PartialEq, Eq, Debug)]
pub struct FnSig {
    pub inputs: Vec<Ty>,
    pub output: Box<Ty>,
}

/// An associated-type projection: the projected item and the substitution
/// it is applied at.
#[derive(PartialEq, Eq, Debug)]
pub struct ProjectionTy {
    pub substs: Vec<Subst>,
    pub item_def_id: DefId,
}

/// A reference to a trait at a given instantiation.
#[derive(PartialEq, Eq, Debug)]
pub struct TraitRef {
    pub def_id: DefId,
    pub substs: Vec<Subst>,
}

/// An associated-type equality constraint.
#[derive(PartialEq, Eq, Debug)]
pub struct ProjectionPredicate {
    pub projection_ty: ProjectionTy,
    pub ty: Ty,
}

/// A trait or projection obligation; any other kind degrades to `Other`.
#[derive(PartialEq, Eq, Debug)]
pub enum Predicate {
    Trait(TraitRef),
    Projection(ProjectionPredicate),
    Other,
}

/// A type node. `Adt` is a reference: it carries the definition's identifier
/// and the instantiation, never the variant or field data. The trailing
/// kinds are recognised but not yet modelled; they encode as placeholder
/// records rather than failing (forward compatibility).
#[derive(PartialEq, Eq, Debug)]
pub enum Ty {
    Bool,
    Char,
    Int(IntKind),
    Uint(UintKind),
    Float(FloatKind),
    Str,
    Tuple(Vec<Ty>),
    Array(Box<Ty>, Box<Const>),
    Slice(Box<Ty>),
    Ref(Box<Ty>, Mutability),
    RawPtr(Box<Ty>, Mutability),
    Adt(DefId, Vec<Subst>),
    FnDef(DefId, Vec<Subst>),
    FnPtr(FnSig),
    Closure(DefId, Vec<Subst>),
    Dynamic(DefId),
    Projection(ProjectionTy),
    UnnormalizedProjection(ProjectionTy),
    Param(u32),
    Never,
    Error,
    Infer,
    Foreign,
    Generator,
    GeneratorWitness,
    Opaque,
}

/// How a variant's discriminant is given.
#[derive(Clone, Copy, PartialEq, Eq, Structural, Debug)]
pub enum VariantDiscr {
    /// Offset from the previous explicit discriminant.
    Relative(u32),
    /// The constant definition holding the explicit value.
    Explicit(DefId),
}

#[derive(PartialEq, Eq, Debug)]
pub struct FieldDef {
    pub did: DefId,
}

#[derive(PartialEq, Eq, Debug)]
pub struct VariantDef {
    pub did: DefId,
    pub discr: VariantDiscr,
    pub fields: Vec<FieldDef>,
    pub ctor_kind: CtorKind,
}

/// The full definition of an algebraic data type.
#[derive(PartialEq, Eq, Debug)]
pub struct AdtDef {
    pub did: DefId,
    pub variants: Vec<VariantDef>,
}

#[derive(Clone, Copy, PartialEq, Eq, Structural, Debug)]
pub enum AssocKind {
    Const,
    Method,
    Type,
    Existential,
}

#[derive(Clone, Copy, PartialEq, Eq, Structural, Debug)]
pub enum Defaultness {
    DefaultNoValue,
    DefaultWithValue,
    Final,
}

#[derive(Clone, Copy, PartialEq, Eq, Structural, Debug)]
pub enum Container {
    TraitContainer(DefId),
    ImplContainer(DefId),
}

/// A trait or impl member.
#[derive(PartialEq, Eq, Debug)]
pub struct AssocItem {
    pub def_id: DefId,
    pub name: String,
    pub kind: AssocKind,
    pub defaultness: Defaultness,
    pub container: Container,
}

/// An aggregate-construction kind; only the `Adt` form is encoded here.
#[derive(PartialEq, Eq, Debug)]
pub enum AggregateKind {
    Adt(AdtDef, usize, Vec<Subst>),
    Other,
}

/// An operand of an aggregate construction. Only constants are modelled;
/// the rest of the operand grammar belongs to the function-body encoder.
#[derive(PartialEq, Eq, Debug)]
pub enum Operand {
    Constant(Const),
    Other,
}

/// One generic parameter: its user-facing name and its own definition.
#[derive(PartialEq, Eq, Debug)]
pub struct ParamDef {
    pub name: String,
    pub def_id: DefId,
}

/// A named member of a trait, for the "implements" search.
#[derive(PartialEq, Eq, Debug)]
pub struct Member {
    pub name: String,
    pub def_id: DefId,
}

/// Everything the context records about one definition.
#[derive(PartialEq, Eq, Debug)]
pub struct DefData {
    /// The stable, crate-relative path string: the Definition Identifier.
    pub path: String,
    /// The enclosing definition whose generics and predicates are inherited.
    pub parent: Option<DefId>,
    /// The definition's own generic parameters, in declaration order.
    pub own_params: Vec<ParamDef>,
    /// The definition's own predicates, in declaration order.
    pub own_preds: Vec<Predicate>,
    /// The definition's type, where it has one.
    pub ty: Option<Ty>,
    /// The definition's function signature, where it has one.
    pub sig: Option<FnSig>,
    /// For an impl: the trait reference it implements, if any.
    pub trait_ref: Option<TraitRef>,
    /// For a trait: its members, for the "implements" search.
    pub members: Vec<Member>,
}

/// One byte allocation in the global constant table. `relocations` lists the
/// byte offsets at which an embedded pointer starts.
#[derive(PartialEq, Eq, Debug)]
pub struct Alloc {
    pub bytes: Vec<u8>,
    pub relocations: Vec<usize>,
}

/// One outcome of the host's constant evaluation, keyed by the constant's
/// definition and the substitution it is instantiated at.
#[derive(PartialEq, Eq, Debug)]
pub struct Instance {
    pub def_id: DefId,
    pub substs: Vec<Subst>,
    pub val: ConstVal,
}

/// The explicit context: the read-only slice of the host compiler's state
/// that one encoding pass consumes.
#[derive(PartialEq, Eq, Debug)]
pub struct Ctx {
    pub defs: Vec<DefData>,
    pub allocs: Vec<Alloc>,
    pub instances: Vec<Instance>,
}

/// Every definition index mentioned by the type lies inside a table of `n`
/// definitions.
pub open spec fn ty_wf(n: int, t: Ty) -> bool
    decreases t,
{
    match t {
        Ty::Tuple(tys) => tys_wf(n, tys@),
        Ty::Array(t2, c) => ty_wf(n, *t2) && const_wf(n, *c),
        Ty::Slice(t2) => ty_wf(n, *t2),
        Ty::Ref(t2, _) => ty_wf(n, *t2),
        Ty::RawPtr(t2, _) => ty_wf(n, *t2),
        Ty::Adt(d, s) => d < n && substs_wf(n, s@),
        Ty::FnDef(d, s) => d < n && substs_wf(n, s@),
        Ty::FnPtr(sig) => sig_wf(n, sig),
        Ty::Closure(d, s) => d < n && substs_wf(n, s@),
        Ty::Dynamic(d) => d < n,
        Ty::Projection(p) => pty_wf(n, p),
        Ty::UnnormalizedProjection(p) => pty_wf(n, p),
        _ => true,
    }
}

pub open spec fn tys_wf(n: int, s: Seq<Ty>) -> bool
    decreases s,
{
    s.len() == 0 || (tys_wf(n, s.drop_last()) && ty_wf(n, s.last()))
}

pub open spec fn subst_wf(n: int, su: Subst) -> bool
    decreases su,
{
    match su {
        Subst::TyArg(t) => ty_wf(n, t),
        Subst::Lifetime => true,
    }
}

pub open spec fn substs_wf(n: int, s: Seq<Subst>) -> bool
    decreases s,
{
    s.len() == 0 || (substs_wf(n, s.drop_last()) && subst_wf(n, s.last()))
}

pub open spec fn const_wf(n: int, c: Const) -> bool
    decreases c,
{
    ty_wf(n, c.ty) && cval_wf(n, c.val)
}

pub open spec fn cval_wf(n: int, v: ConstVal) -> bool
    decreases v,
{
    match v {
        ConstVal::Unevaluated(d, s) => d < n && substs_wf(n, s@),
        _ => true,
    }
}

pub open spec fn sig_wf(n: int, sig: FnSig) -> bool
    decreases sig,
{
    tys_wf(n, sig.inputs@) && ty_wf(n, *sig.output)
}

pub open spec fn pty_wf(n: int, p: ProjectionTy) -> bool
    decreases p,
{
    p.item_def_id < n && substs_wf(n, p.substs@)
}

pub open spec fn trait_ref_wf(n: int, tr: TraitRef) -> bool
    decreases tr,
{
    tr.def_id < n && substs_wf(n, tr.substs@)
}

pub open spec fn pred_wf(n: int, p: Predicate) -> bool
    decreases p,
{
    match p {
        Predicate::Trait(tr) => trait_ref_wf(n, tr),
        Predicate::Projection(pp) => pty_wf(n, pp.projection_ty) && ty_wf(n, pp.ty),
        Predicate::Other => true,
    }
}

pub open spec fn preds_wf(n: int, s: Seq<Predicate>) -> bool
    decreases s,
{
    s.len() == 0 || (preds_wf(n, s.drop_last()) && pred_wf(n, s.last()))
}

pub proof fn lemma_tys_wf_index(n: int, s: Seq<Ty>, i: int)
    requires
        tys_wf(n, s),
        0 <= i < s.len(),
    ensures
        ty_wf(n, s[i]),
    decreases s,
{
    if i < s.len() - 1 {
        lemma_tys_wf_index(n, s.drop_last(), i);
    }
}

pub proof fn lemma_substs_wf_index(n: int, s: Seq<Subst>, i: int)
    requires
        substs_wf(n, s),
        0 <= i < s.len(),
    ensures
        subst_wf(n, s[i]),
    decreases s,
{
    if i < s.len() - 1 {
        lemma_substs_wf_index(n, s.drop_last(), i);
    }
}

pub proof fn lemma_preds_wf_index(n: int, s: Seq<Predicate>, i: int)
    requires
        preds_wf(n, s),
        0 <= i < s.len(),
    ensures
        pred_wf(n, s[i]),
    decreases s,
{
    if i < s.len() - 1 {
        lemma_preds_wf_index(n, s.drop_last(), i);
    }
}

impl DefData {
    /// Every index this definition record mentions lies inside a table of
    /// `n` definitions, and its parent comes strictly earlier in the table.
    pub open spec fn wf(self, n: int, own: int) -> bool {
        &&& (self.parent matches Some(p) ==> p < own)
        &&& (forall|i: int|
            0 <= i < self.own_params@.len() ==> (#[trigger] self.own_params@[i]).def_id < n)
        &&& preds_wf(n, self.own_preds@)
        &&& (self.ty matches Some(t) ==> ty_wf(n, t))
        &&& (self.sig matches Some(s) ==> sig_wf(n, s))
        &&& (self.trait_ref matches Some(tr) ==> trait_ref_wf(n, tr))
        &&& (forall|i: int| 0 <= i < self.members@.len() ==> (#[trigger] self.members@[i]).def_id < n)
    }
}

impl Ctx {
    /// The number of definitions the context holds.
    pub open spec fn n(self) -> int {
        self.defs@.len() as int
    }

    /// The context is internally consistent: parents come before children,
    /// and every definition index mentioned anywhere lies in the table.
    pub open spec fn wf(self) -> bool {
        &&& (forall|d: int| 0 <= d < self.n() ==> (#[trigger] self.defs@[d]).wf(self.n(), d))
        &&& (forall|i: int|
            0 <= i < self.instances@.len() ==> cval_wf(self.n(), (#[trigger] self.instances@[i]).val))
    }

    /// The stable path string of a definition: the Definition Identifier.
    /// The crate-relative convention is used, uniformly for every record.
    pub open spec fn path_of(self, d: DefId) -> Seq<char> {
        self.defs@[d as int].path@
    }
}

/// Structural equality of type nodes, used to match an instantiation key.
pub open spec fn ty_keq(a: Ty, b: Ty) -> bool
    decreases a,
{
    match (a, b) {
        (Ty::Bool, Ty::Bool) => true,
        (Ty::Char, Ty::Char) => true,
        (Ty::Int(k1), Ty::Int(k2)) => k1 == k2,
        (Ty::Uint(k1), Ty::Uint(k2)) => k1 == k2,
        (Ty::Float(k1), Ty::Float(k2)) => k1 == k2,
        (Ty::Str, Ty::Str) => true,
        (Ty::Tuple(x), Ty::Tuple(y)) => tys_keq(x@, y@),
        (Ty::Array(t1, c1), Ty::Array(t2, c2)) => ty_keq(*t1, *t2) && const_keq(*c1, *c2),
        (Ty::Slice(t1), Ty::Slice(t2)) => ty_keq(*t1, *t2),
        (Ty::Ref(t1, m1), Ty::Ref(t2, m2)) => ty_keq(*t1, *t2) && m1 == m2,
        (Ty::RawPtr(t1, m1), Ty::RawPtr(t2, m2)) => ty_keq(*t1, *t2) && m1 == m2,
        (Ty::Adt(d1, s1), Ty::Adt(d2, s2)) => d1 == d2 && substs_keq(s1@, s2@),
        (Ty::FnDef(d1, s1), Ty::FnDef(d2, s2)) => d1 == d2 && substs_keq(s1@, s2@),
        (Ty::FnPtr(g1), Ty::FnPtr(g2)) => sig_keq(g1, g2),
        (Ty::Closure(d1, s1), Ty::Closure(d2, s2)) => d1 == d2 && substs_keq(s1@, s2@),
        (Ty::Dynamic(d1), Ty::Dynamic(d2)) => d1 == d2,
        (Ty::Projection(p1), Ty::Projection(p2)) => pty_keq(p1, p2),
        (Ty::UnnormalizedProjection(p1), Ty::UnnormalizedProjection(p2)) => pty_keq(p1, p2),
        (Ty::Param(i1), Ty::Param(i2)) => i1 == i2,
        (Ty::Never, Ty::Never) => true,
        (Ty::Error, Ty::Error) => true,
        (Ty::Infer, Ty::Infer) => true,
        (Ty::Foreign, Ty::Foreign) => true,
        (Ty::Generator, Ty::Generator) => true,
        (Ty::GeneratorWitness, Ty::GeneratorWitness) => true,
        (Ty::Opaque, Ty::Opaque) => true,
        _ => false,
    }
}

pub open spec fn tys_keq(a: Seq<Ty>, b: Seq<Ty>) -> bool
    decreases a,
{
    a.len() == b.len() && (a.len() == 0 || (tys_keq(a.drop_last(), b.drop_last()) && ty_keq(
        a.last(),
        b.last(),
    )))
}

/// Sequences of type nodes match exactly when they match position by
/// position.
pub proof fn lemma_tys_keq_iff(a: Seq<Ty>, b: Seq<Ty>)
    ensures
        tys_keq(a, b) <==> (a.len() == b.len() && (forall|i: int|
            0 <= i < a.len() ==> #[trigger] ty_keq(a[i], b[i]))),
    decreases a,
{
    if a.len() > 0 && a.len() == b.len() {
        lemma_tys_keq_iff(a.drop_last(), b.drop_last());
        if tys_keq(a, b) {
            assert forall|i: int| 0 <= i < a.len() implies #[trigger] ty_keq(a[i], b[i]) by {
                if i < a.len() - 1 {
                    assert(ty_keq(a.drop_last()[i], b.drop_last()[i]));
                } else {
                    assert(ty_keq(a.last(), b.last()));
                }
            }
        }
        if a.len() == b.len() && (forall|i: int|
            0 <= i < a.len() ==> #[trigger] ty_keq(a[i], b[i])) {
            assert forall|i: int|
                0 <= i < a.drop_last().len() implies #[trigger] ty_keq(
                a.drop_last()[i],
                b.drop_last()[i],
            ) by {
                assert(ty_keq(a[i], b[i]));
            }
            assert(ty_keq(a[a.len() - 1], b[b.len() - 1]));
            assert(a.last() == a[a.len() - 1]);
        }
    }
}

pub open spec fn subst_keq(a: Subst, b: Subst) -> bool
    decreases a,
{
    match (a, b) {
        (Subst::TyArg(t1), Subst::TyArg(t2)) => ty_keq(t1, t2),
        (Subst::Lifetime, Subst::Lifetime) => true,
        _ => false,
    }
}

pub open spec fn substs_keq(a: Seq<Subst>, b: Seq<Subst>) -> bool
    decreases a,
{
    a.len() == b.len() && (a.len() == 0 || (substs_keq(a.drop_last(), b.drop_last()) && subst_keq(
        a.last(),
        b.last(),
    )))
}

/// Substitution lists match exactly when they match position by position.
pub proof fn lemma_substs_keq_iff(a: Seq<Subst>, b: Seq<Subst>)
    ensures
        substs_keq(a, b) <==> (a.len() == b.len() && (forall|i: int|
            0 <= i < a.len() ==> #[trigger] subst_keq(a[i], b[i]))),
    decreases a,
{
    if a.len() > 0 && a.len() == b.len() {
        lemma_substs_keq_iff(a.drop_last(), b.drop_last());
        if substs_keq(a, b) {
            assert forall|i: int| 0 <= i < a.len() implies #[trigger] subst_keq(a[i], b[i]) by {
                if i < a.len() - 1 {
                    assert(subst_keq(a.drop_last()[i], b.drop_last()[i]));
                } else {
                    assert(subst_keq(a.last(), b.last()));
                }
            }
        }
        if a.len() == b.len() && (forall|i: int|
            0 <= i < a.len() ==> #[trigger] subst_keq(a[i], b[i])) {
            assert forall|i: int|
                0 <= i < a.drop_last().len() implies #[trigger] subst_keq(
                a.drop_last()[i],
                b.drop_last()[i],
            ) by {
                assert(subst_keq(a[i], b[i]));
            }
            assert(subst_keq(a[a.len() - 1], b[b.len() - 1]));
            assert(a.last() == a[a.len() - 1]);
        }
    }
}

pub open spec fn const_keq(a: Const, b: Const) -> bool
    decreases a,
{
    ty_keq(a.ty, b.ty) && cval_keq(a.val, b.val)
}

pub open spec fn cval_keq(a: ConstVal, b: ConstVal) -> bool
    decreases a,
{
    match (a, b) {
        (ConstVal::Unevaluated(d1, s1), ConstVal::Unevaluated(d2, s2)) => d1 == d2 && substs_keq(
            s1@,
            s2@,
        ),
        (ConstVal::Bits { size: z1, bits: b1 }, ConstVal::Bits { size: z2, bits: b2 }) => z1 == z2
            && b1 == b2,
        (ConstVal::Ptr(p1), ConstVal::Ptr(p2)) => p1 == p2,
        (
            ConstVal::PtrBits { ptr: p1, size: z1, bits: b1 },
            ConstVal::PtrBits { ptr: p2, size: z2, bits: b2 },
        ) => p1 == p2 && z1 == z2 && b1 == b2,
        (ConstVal::Opaque, ConstVal::Opaque) => true,
        _ => false,
    }
}

pub open spec fn sig_keq(a: FnSig, b: FnSig) -> bool
    decreases a,
{
    tys_keq(a.inputs@, b.inputs@) && ty_keq(*a.output, *b.output)
}

pub open spec fn pty_keq(a: ProjectionTy, b: ProjectionTy) -> bool
    decreases a,
{
    a.item_def_id == b.item_def_id && substs_keq(a.substs@, b.substs@)
}

/// Decides structural equality of two type nodes.
pub fn ty_eq(a: &Ty, b: &Ty) -> (r: bool)
    ensures
        r == ty_keq(*a, *b),
    decreases *a,
{
    match (a, b) {
        (Ty::Bool, Ty::Bool) => true,
        (Ty::Char, Ty::Char) => true,
        (Ty::Int(k1), Ty::Int(k2)) => *k1 == *k2,
        (Ty::Uint(k1), Ty::Uint(k2)) => *k1 == *k2,
        (Ty::Float(k1), Ty::Float(k2)) => *k1 == *k2,
        (Ty::Str, Ty::Str) => true,
        (Ty::Tuple(x), Ty::Tuple(y)) => tys_eq(x, y),
        (Ty::Array(t1, c1), Ty::Array(t2, c2)) => ty_eq(&*t1, &*t2) && const_eq(&*c1, &*c2),
        (Ty::Slice(t1), Ty::Slice(t2)) => ty_eq(&*t1, &*t2),
        (Ty::Ref(t1, m1), Ty::Ref(t2, m2)) => ty_eq(&*t1, &*t2) && *m1 == *m2,
        (Ty::RawPtr(t1, m1), Ty::RawPtr(t2, m2)) => ty_eq(&*t1, &*t2) && *m1 == *m2,
        (Ty::Adt(d1, s1), Ty::Adt(d2, s2)) => *d1 == *d2 && substs_eq(s1, s2),
        (Ty::FnDef(d1, s1), Ty::FnDef(d2, s2)) => *d1 == *d2 && substs_eq(s1, s2),
        (Ty::FnPtr(g1), Ty::FnPtr(g2)) => sig_eq(g1, g2),
        (Ty::Closure(d1, s1), Ty::Closure(d2, s2)) => *d1 == *d2 && substs_eq(s1, s2),
        (Ty::Dynamic(d1), Ty::Dynamic(d2)) => *d1 == *d2,
        (Ty::Projection(p1), Ty::Projection(p2)) => pty_eq(p1, p2),
        (Ty::UnnormalizedProjection(p1), Ty::UnnormalizedProjection(p2)) => pty_eq(p1, p2),
        (Ty::Param(i1), Ty::Param(i2)) => *i1 == *i2,
        (Ty::Never, Ty::Never) => true,
        (Ty::Error, Ty::Error) => true,
        (Ty::Infer, Ty::Infer) => true,
        (Ty::Foreign, Ty::Foreign) => true,
        (Ty::Generator, Ty::Generator) => true,
        (Ty::GeneratorWitness, Ty::GeneratorWitness) => true,
        (Ty::Opaque, Ty::Opaque) => true,
        _ => false,
    }
}

pub fn tys_eq(a: &Vec<Ty>, b: &Vec<Ty>) -> (r: bool)
    ensures
        r == tys_keq(a@, b@),
    decreases a,
{
    if a.len() != b.len() {
        return false;
    }
    let mut i: usize = 0;
    while i < a.len()
        invariant
            i <= a.len(),
            a@.len() == b@.len(),
            forall|k: int| 0 <= k < i ==> #[trigger] ty_keq(a@[k], b@[k]),
        decreases a.len() - i,
    {
        if !ty_eq(&a[i], &b[i]) {
            proof {
                lemma_tys_keq_iff(a@, b@);
            }
            return false;
        }
        i = i + 1;
    }
    proof {
        lemma_tys_keq_iff(a@, b@);
    }
    true
}

pub fn subst_eq(a: &Subst, b: &Subst) -> (r: bool)
    ensures
        r == subst_keq(*a, *b),
    decreases *a,
{
    match (a, b) {
        (Subst::TyArg(t1), Subst::TyArg(t2)) => ty_eq(t1, t2),
        (Subst::Lifetime, Subst::Lifetime) => true,
        _ => false,
    }
}

pub fn substs_eq(a: &Vec<Subst>, b: &Vec<Subst>) -> (r: bool)
    ensures
        r == substs_keq(a@, b@),
    decreases a,
{
    if a.len() != b.len() {
        return false;
    }
    let mut i: usize = 0;
    while i < a.len()
        invariant
            i <= a.len(),
            a@.len() == b@.len(),
            forall|k: int| 0 <= k < i ==> #[trigger] subst_keq(a@[k], b@[k]),
        decreases a.len() - i,
    {
        if !subst_eq(&a[i], &b[i]) {
            proof {
                lemma_substs_keq_iff(a@, b@);
            }
            return false;
        }
        i = i + 1;
    }
    proof {
        lemma_substs_keq_iff(a@, b@);
    }
    true
}

pub fn const_eq(a: &Const, b: &Const) -> (r: bool)
    ensures
        r == const_keq(*a, *b),
    decreases *a,
{
    ty_eq(&a.ty, &b.ty) && cval_eq(&a.val, &b.val)
}

pub fn cval_eq(a: &ConstVal, b: &ConstVal) -> (r: bool)
    ensures
        r == cval_keq(*a, *b),
    decreases *a,
{
    match (a, b) {
        (ConstVal::Unevaluated(d1, s1), ConstVal::Unevaluated(d2, s2)) => *d1 == *d2 && substs_eq(
            s1,
            s2,
        ),
        (ConstVal::Bits { size: z1, bits: b1 }, ConstVal::Bits { size: z2, bits: b2 }) => *z1 == *z2
            && *b1 == *b2,
        (ConstVal::Ptr(p1), ConstVal::Ptr(p2)) => *p1 == *p2,
        (
            ConstVal::PtrBits { ptr: p1, size: z1, bits: b1 },
            ConstVal::PtrBits { ptr: p2, size: z2, bits: b2 },
        ) => *p1 == *p2 && *z1 == *z2 && *b1 == *b2,
        (ConstVal::Opaque, ConstVal::Opaque) => true,
        _ => false,
    }
}

pub fn sig_eq(a: &FnSig, b: &FnSig) -> (r: bool)
    ensures
        r == sig_keq(*a, *b),
    decreases *a,
{
    tys_eq(&a.inputs, &b.inputs) && ty_eq(&*a.output, &*b.output)
}

pub fn pty_eq(a: &ProjectionTy, b: &ProjectionTy) -> (r: bool)
    ensures
        r == pty_keq(*a, *b),
    decreases *a,
{
    a.item_def_id == b.item_def_id && substs_eq(&a.substs, &b.substs)
}

/// Whether one recorded evaluation answers the asked-for key.
pub open spec fn matches_inst(inst: Instance, d: DefId, s: Seq<Subst>) -> bool {
    inst.def_id == d && substs_keq(inst.substs@, s)
}

/// The first recorded evaluation for the key, if any: the model of the
/// host's resolve-and-evaluate operation.
pub open spec fn first_match(insts: Seq<Instance>, d: DefId, s: Seq<Subst>) -> Option<ConstVal>
    decreases insts.len(),
{
    if insts.len() == 0 {
        Option::None
    } else if matches_inst(insts[0], d, s) {
        Option::Some(insts[0].val)
    } else {
        first_match(insts.drop_first(), d, s)
    }
}

} // verus!
