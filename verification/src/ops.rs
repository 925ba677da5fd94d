//! Per-operator typing rules and operand validation: the pure layer the
//! dispatcher calls. Every function here is a function of its arguments
//! alone and carries an exact contract.

use vstd::prelude::*;
use crate::ast::BinExpr;
use crate::ast::BinOp;
use crate::ast::ExprKind;
use crate::ast::Span;
use crate::diag::Diag;
use crate::env::Env;
use crate::env::assignable;
use crate::env::assignable_v;
use crate::env::chase_ref;
use crate::env::chase_ref_v;
use crate::env::function_like;
use crate::env::function_like_v;
use crate::env::has_overlap;
use crate::env::has_overlap_v;
use crate::structural::ty_eq;
use crate::structural::type_eq;
use crate::ty::Kwd;
use crate::ty::LitVal;
use crate::ty::Ty;
use crate::ty::TyKind;
use crate::ty::TyKindV;
use crate::ty::TyV;
use crate::ty::lemma_tys_view;
use crate::ty::ty_view;
use crate::ty::tys_view;
use crate::ty_ops::is_kwd_v;
use crate::ty_ops::is_num_lit_v;
use crate::ty_ops::kw_v;
use crate::ty_ops::normalize_v;

verus! {

/// Whether `case` can stand as a `switch` case test against `disc`: equal
/// types can; two distinct numeric literals cannot; inside a case test an
/// intersection discriminant always can; otherwise overlap decides.
pub open spec fn valid_for_switch_case_v(disc: TyV, case: TyV, in_switch_case_test: bool) -> bool {
    let d = normalize_v(disc);
    let c = normalize_v(case);
    if ty_eq(d, c) {
        true
    } else if is_num_lit_v(d) && is_num_lit_v(c) {
        false
    } else if in_switch_case_test && d.kind is Intersection {
        true
    } else {
        has_overlap_v(d, c)
    }
}

/// Whether `case` can stand as a case test against `disc`.
pub fn is_valid_for_switch_case(disc: &Ty, case: &Ty, in_switch_case_test: bool) -> (r: bool)
    ensures r == valid_for_switch_case_v(disc@, case@, in_switch_case_test),
{
    let d = disc.normalize();
    let c = case.normalize();
    if type_eq(&d, &c) {
        return true;
    }
    if d.is_num_lit() && c.is_num_lit() {
        return false;
    }
    if in_switch_case_test && d.is_intersection_type() {
        return true;
    }
    has_overlap(&d, &c)
}

/// Whether a type may be the subject of `instanceof`: `any`, `object`,
/// object-like shapes, intersections of such, unions with one such member.
pub open spec fn valid_lhs_of_instanceof_v(t: TyV) -> bool
    decreases t,
{
    match t.kind {
        TyKindV::Keyword(Kwd::Any) => true,
        TyKindV::Keyword(Kwd::Object) => true,
        TyKindV::TypeLit(_) => true,
        TyKindV::Interface(_) => true,
        TyKindV::Class(_) => true,
        TyKindV::This => true,
        TyKindV::Param(_) => true,
        TyKindV::Mapped => true,
        TyKindV::Ref(_) => true,
        TyKindV::Intersection(_) => forall|i: int| 0 <= i < (t.kind->Intersection_0).len()
            ==> valid_lhs_of_instanceof_v(#[trigger] (t.kind->Intersection_0)[i]),
        TyKindV::Union(_) => exists|i: int| 0 <= i < (t.kind->Union_0).len()
            && valid_lhs_of_instanceof_v(#[trigger] (t.kind->Union_0)[i]),
        _ => false,
    }
}

/// Whether a type may be the subject of `instanceof`.
#[verifier::loop_isolation(false)]
pub fn is_valid_lhs_of_instanceof(t: &Ty) -> (r: bool)
    ensures r == valid_lhs_of_instanceof_v(t@),
    decreases t@,
{
    match &t.kind {
        TyKind::Keyword(Kwd::Any) => true,
        TyKind::Keyword(Kwd::Object) => true,
        TyKind::TypeLit(_) => true,
        TyKind::Interface(_) => true,
        TyKind::Class(_) => true,
        TyKind::This => true,
        TyKind::Param(_) => true,
        TyKind::Mapped => true,
        TyKind::Ref(_) => true,
        TyKind::Intersection(ts) => {
            proof {
                lemma_tys_view(ts@);
                assert(t@.kind->Intersection_0 == tys_view(ts@));
            }
            let ghost s = tys_view(ts@);
            let mut i: usize = 0;
            while i < ts.len()
                invariant
                    i <= ts.len(),
                    forall|j: int| 0 <= j < i as int ==> valid_lhs_of_instanceof_v(#[trigger] s[j]),
                decreases ts@.len() - i as int,
            {
                proof {
                    lemma_tys_view(ts@);
                    assert(s[i as int] == ty_view(ts@[i as int]));
                    assert(decreases_to!(t@ => t@.kind));
                    assert(decreases_to!(t@.kind => t@.kind->Intersection_0));
                    assert(decreases_to!(s => s[i as int]));
                }
                if !is_valid_lhs_of_instanceof(&ts[i]) {
                    assert(!valid_lhs_of_instanceof_v(s[i as int]));
                    return false;
                }
                i = i + 1;
            }
            true
        },
        TyKind::Union(ts) => {
            proof {
                lemma_tys_view(ts@);
                assert(t@.kind->Union_0 == tys_view(ts@));
            }
            let ghost s = tys_view(ts@);
            let mut i: usize = 0;
            while i < ts.len()
                invariant
                    i <= ts.len(),
                    forall|j: int| 0 <= j < i as int ==> !valid_lhs_of_instanceof_v(#[trigger] s[j]),
                decreases ts@.len() - i as int,
            {
                proof {
                    lemma_tys_view(ts@);
                    assert(s[i as int] == ty_view(ts@[i as int]));
                    assert(decreases_to!(t@ => t@.kind));
                    assert(decreases_to!(t@.kind => t@.kind->Union_0));
                    assert(decreases_to!(s => s[i as int]));
                }
                if is_valid_lhs_of_instanceof(&ts[i]) {
                    assert(valid_lhs_of_instanceof_v(s[i as int]));
                    return true;
                }
                i = i + 1;
            }
            false
        },
        _ => false,
    }
}


// ------------------------------------------------------------------
// `in` operand validity.
// ------------------------------------------------------------------

/// Whether a type is a valid key for the left of `in`: key-like keywords
/// and literals, enums, type parameters, `keyof`, symbols; references are
/// chased; a union must be valid memberwise.
pub open spec fn valid_lhs_of_in_v(env: Env, t: TyV, fuel: nat) -> bool
    decreases fuel, t,
{
    match t.kind {
        TyKindV::Ref(n) => if fuel == 0 {
            true
        } else {
            match env.spec_type_def(n) {
                Some(d) => valid_lhs_of_in_v(env, d, (fuel - 1) as nat),
                None => true,
            }
        },
        TyKindV::Keyword(Kwd::Any) => true,
        TyKindV::Keyword(Kwd::Str) => true,
        TyKindV::Keyword(Kwd::Number) => true,
        TyKindV::Keyword(Kwd::BigInt) => true,
        TyKindV::Keyword(Kwd::Symbol) => true,
        TyKindV::Lit(LitVal::Num(_)) => true,
        TyKindV::Lit(LitVal::Str(_)) => true,
        TyKindV::Enum(_) => true,
        TyKindV::EnumVariant(_, _) => true,
        TyKindV::Param(_) => true,
        TyKindV::Keyof(_) => true,
        TyKindV::UniqueSymbol => true,
        TyKindV::Union(_) => forall|i: int| 0 <= i < (t.kind->Union_0).len()
            ==> valid_lhs_of_in_v(env, #[trigger] (t.kind->Union_0)[i], fuel),
        _ => false,
    }
}

/// Whether a type is a valid key for the left of `in`.
#[verifier::loop_isolation(false)]
pub fn is_valid_lhs_of_in(env: &Env, t: &Ty, fuel: usize) -> (r: bool)
    ensures r == valid_lhs_of_in_v(*env, t@, fuel as nat),
    decreases fuel as nat, t@,
{
    match &t.kind {
        TyKind::Ref(n) => {
            if fuel == 0 {
                true
            } else {
                match env.type_def(*n, crate::ast::Span { lo: 0, hi: 0 }) {
                    Ok(d) => is_valid_lhs_of_in(env, &d, fuel - 1),
                    Err(_) => true,
                }
            }
        },
        TyKind::Keyword(Kwd::Any) => true,
        TyKind::Keyword(Kwd::Str) => true,
        TyKind::Keyword(Kwd::Number) => true,
        TyKind::Keyword(Kwd::BigInt) => true,
        TyKind::Keyword(Kwd::Symbol) => true,
        TyKind::Lit(LitVal::Num(_)) => true,
        TyKind::Lit(LitVal::Str(_)) => true,
        TyKind::Enum(_) => true,
        TyKind::EnumVariant(_, _) => true,
        TyKind::Param(_) => true,
        TyKind::Keyof(_) => true,
        TyKind::UniqueSymbol => true,
        TyKind::Union(ts) => {
            proof {
                lemma_tys_view(ts@);
                assert(t@.kind->Union_0 == tys_view(ts@));
            }
            let ghost s = tys_view(ts@);
            let mut i: usize = 0;
            while i < ts.len()
                invariant
                    i <= ts.len(),
                    forall|j: int| 0 <= j < i as int ==> valid_lhs_of_in_v(*env, #[trigger] s[j], fuel as nat),
                decreases ts@.len() - i as int,
            {
                proof {
                    lemma_tys_view(ts@);
                    assert(s[i as int] == ty_view(ts@[i as int]));
                    assert(decreases_to!(t@ => t@.kind));
                    assert(decreases_to!(t@.kind => t@.kind->Union_0));
                    assert(decreases_to!(s => s[i as int]));
                }
                if !is_valid_lhs_of_in(env, &ts[i], fuel) {
                    assert(!valid_lhs_of_in_v(*env, s[i as int], fuel as nat));
                    return false;
                }
                i = i + 1;
            }
            true
        },
        _ => false,
    }
}

/// Whether a type is a valid object for the right of `in`: object-like
/// shapes; references are chased; a union must be valid memberwise.
pub open spec fn valid_rhs_of_in_v(env: Env, t: TyV, fuel: nat) -> bool
    decreases fuel, t,
{
    match t.kind {
        TyKindV::Keyword(Kwd::Any) => true,
        TyKindV::Ref(n) => if fuel == 0 {
            true
        } else {
            match env.spec_type_def(n) {
                Some(d) => valid_rhs_of_in_v(env, d, (fuel - 1) as nat),
                None => true,
            }
        },
        TyKindV::TypeLit(_) => true,
        TyKindV::Param(_) => true,
        TyKindV::Mapped => true,
        TyKindV::Array(_) => true,
        TyKindV::Tuple(_) => true,
        TyKindV::IndexedAccess => true,
        TyKindV::Interface(_) => true,
        TyKindV::Keyword(Kwd::Object) => true,
        TyKindV::Union(_) => forall|i: int| 0 <= i < (t.kind->Union_0).len()
            ==> valid_rhs_of_in_v(env, #[trigger] (t.kind->Union_0)[i], fuel),
        _ => false,
    }
}

/// Whether a type is a valid object for the right of `in`.
#[verifier::loop_isolation(false)]
pub fn is_valid_rhs_of_in(env: &Env, t: &Ty, fuel: usize) -> (r: bool)
    ensures r == valid_rhs_of_in_v(*env, t@, fuel as nat),
    decreases fuel as nat, t@,
{
    match &t.kind {
        TyKind::Keyword(Kwd::Any) => true,
        TyKind::Ref(n) => {
            if fuel == 0 {
                true
            } else {
                match env.type_def(*n, crate::ast::Span { lo: 0, hi: 0 }) {
                    Ok(d) => is_valid_rhs_of_in(env, &d, fuel - 1),
                    Err(_) => true,
                }
            }
        },
        TyKind::TypeLit(_) => true,
        TyKind::Param(_) => true,
        TyKind::Mapped => true,
        TyKind::Array(_) => true,
        TyKind::Tuple(_) => true,
        TyKind::IndexedAccess => true,
        TyKind::Interface(_) => true,
        TyKind::Keyword(Kwd::Object) => true,
        TyKind::Union(ts) => {
            proof {
                lemma_tys_view(ts@);
                assert(t@.kind->Union_0 == tys_view(ts@));
            }
            let ghost s = tys_view(ts@);
            let mut i: usize = 0;
            while i < ts.len()
                invariant
                    i <= ts.len(),
                    forall|j: int| 0 <= j < i as int ==> valid_rhs_of_in_v(*env, #[trigger] s[j], fuel as nat),
                decreases ts@.len() - i as int,
            {
                proof {
                    lemma_tys_view(ts@);
                    assert(s[i as int] == ty_view(ts@[i as int]));
                    assert(decreases_to!(t@ => t@.kind));
                    assert(decreases_to!(t@.kind => t@.kind->Union_0));
                    assert(decreases_to!(s => s[i as int]));
                }
                if !is_valid_rhs_of_in(env, &ts[i], fuel) {
                    assert(!valid_rhs_of_in_v(*env, s[i as int], fuel as nat));
                    return false;
                }
                i = i + 1;
            }
            true
        },
        _ => false,
    }
}


// ------------------------------------------------------------------
// `instanceof` right-operand validation.
// ------------------------------------------------------------------

/// Validate the right operand of `instanceof` and the diagnostics that
/// validation reports: scalars, literals, class instances, the global
/// `Object` reference, symbols and empty object literals are rejected;
/// unions are validated memberwise; class declarations pass; object
/// literals and interfaces pass only when they are function-like.
pub open spec fn rhs_of_instanceof_v(t: TyV, span: Span) -> (TyV, Seq<Diag>)
    decreases t,
{
    if t.kind == TyKindV::Keyword(Kwd::Any) {
        (t, Seq::empty())
    } else {
        match t.kind {
            TyKindV::Keyword(Kwd::Str) => (t, seq![Diag::InvalidRhsInInstanceOf { span }]),
            TyKindV::Keyword(Kwd::Number) => (t, seq![Diag::InvalidRhsInInstanceOf { span }]),
            TyKindV::Keyword(Kwd::Boolean) => (t, seq![Diag::InvalidRhsInInstanceOf { span }]),
            TyKindV::Keyword(Kwd::Void) => (t, seq![Diag::InvalidRhsInInstanceOf { span }]),
            TyKindV::Lit(_) => (t, seq![Diag::InvalidRhsInInstanceOf { span }]),
            TyKindV::Class(_) => (t, seq![Diag::InvalidRhsInInstanceOf { span }]),
            TyKindV::UniqueSymbol => (t, seq![Diag::InvalidRhsInInstanceOf { span }]),
            TyKindV::Ref(n) => if n == crate::sym::SYM_OBJECT_CLASS {
                (t, seq![Diag::InvalidRhsInInstanceOf { span }])
            } else {
                (t, Seq::empty())
            },
            TyKindV::TypeLit(es) => if es.len() == 0 {
                (t, seq![Diag::InvalidRhsInInstanceOf { span }])
            } else if function_like_v(es) {
                (t, Seq::empty())
            } else {
                (t, seq![Diag::InvalidRhsInInstanceOf { span }])
            },
            TyKindV::Interface(d) => if function_like_v(d.body) {
                (t, Seq::empty())
            } else {
                (t, seq![Diag::InvalidRhsInInstanceOf { span }])
            },
            TyKindV::Union(_) => {
                let p = rhs_each_v(t.kind->Union_0, span);
                (TyV { no_generalize: t.no_generalize, kind: TyKindV::Union(p.0) }, p.1)
            },
            _ => (t, Seq::empty()),
        }
    }
}

/// Validate every member of a union's right operand.
pub open spec fn rhs_each_v(ms: Seq<TyV>, span: Span) -> (Seq<TyV>, Seq<Diag>)
    decreases ms,
{
    if ms.len() == 0 {
        (Seq::empty(), Seq::empty())
    } else {
        let h = rhs_of_instanceof_v(ms[0], span);
        let rest = rhs_each_v(ms.drop_first(), span);
        (seq![h.0] + rest.0, h.1 + rest.1)
    }
}

/// Validate the right operand of `instanceof`; the second part of the
/// result is what is to be reported.
#[verifier::loop_isolation(false)]
pub fn validate_rhs_of_instanceof(t: &Ty, span: Span) -> (r: (Ty, Vec<Diag>))
    ensures
        r.0@ == rhs_of_instanceof_v(t@, span).0,
        r.1@ == rhs_of_instanceof_v(t@, span).1,
    decreases t@,
{
    if t.is_any() {
        return (t.clone(), Vec::new());
    }
    let bad = (t.clone(), {
        let mut v: Vec<Diag> = Vec::new();
        v.push(Diag::InvalidRhsInInstanceOf { span });
        proof {
            assert(v@ =~= seq![Diag::InvalidRhsInInstanceOf { span }]);
        }
        v
    });
    match &t.kind {
        TyKind::Keyword(Kwd::Str) => bad,
        TyKind::Keyword(Kwd::Number) => bad,
        TyKind::Keyword(Kwd::Boolean) => bad,
        TyKind::Keyword(Kwd::Void) => bad,
        TyKind::Lit(_) => bad,
        TyKind::Class(_) => bad,
        TyKind::UniqueSymbol => bad,
        TyKind::Ref(n) => {
            if *n == crate::sym::SYM_OBJECT_CLASS {
                bad
            } else {
                (t.clone(), Vec::new())
            }
        },
        TyKind::TypeLit(es) => {
            if es.len() == 0 {
                proof {
                    assert(t@.kind->TypeLit_0 == crate::ty::elems_view(es@));
                    crate::ty::lemma_elems_view(es@);
                }
                bad
            } else if function_like(es) {
                proof {
                    assert(t@.kind->TypeLit_0 == crate::ty::elems_view(es@));
                    crate::ty::lemma_elems_view(es@);
                }
                (t.clone(), Vec::new())
            } else {
                proof {
                    assert(t@.kind->TypeLit_0 == crate::ty::elems_view(es@));
                    crate::ty::lemma_elems_view(es@);
                }
                bad
            }
        },
        TyKind::Interface(d) => {
            proof {
                assert(t@.kind->Interface_0 == crate::ty::iface_view(**d));
            }
            if function_like(&d.body) {
                (t.clone(), Vec::new())
            } else {
                bad
            }
        },
        TyKind::Union(ts) => {
            proof {
                lemma_tys_view(ts@);
                assert(t@.kind->Union_0 == tys_view(ts@));
            }
            let ghost s = tys_view(ts@);
            let mut outs: Vec<Ty> = Vec::new();
            let mut ds: Vec<Diag> = Vec::new();
            let mut i: usize = 0;
            proof {
                assert(s.skip(0) =~= s);
                assert(tys_view(outs@) =~= Seq::<TyV>::empty());
            }
            while i < ts.len()
                invariant
                    i <= ts.len(),
                    rhs_each_v(s, span).0 == tys_view(outs@) + rhs_each_v(s.skip(i as int), span).0,
                    rhs_each_v(s, span).1 == ds@ + rhs_each_v(s.skip(i as int), span).1,
                decreases ts@.len() - i as int,
            {
                proof {
                    lemma_tys_view(ts@);
                    lemma_tys_view(outs@);
                    assert(s.skip(i as int)[0] == s[i as int]);
                    assert(s.skip(i as int).drop_first() =~= s.skip(i as int + 1));
                    assert(s[i as int] == ty_view(ts@[i as int]));
                    assert(decreases_to!(t@ => t@.kind));
                    assert(decreases_to!(t@.kind => t@.kind->Union_0));
                    assert(decreases_to!(s => s[i as int]));
                }
                let (mt, mut md) = validate_rhs_of_instanceof(&ts[i], span);
                let ghost prev_outs = outs@;
                let ghost prev_ds = ds@;
                outs.push(mt);
                let ghost mdv = md@;
                let mut j: usize = 0;
                while j < md.len()
                    invariant
                        j <= md.len(),
                        md@ == mdv,
                        ds@ == prev_ds + mdv.take(j as int),
                    decreases mdv.len() - j as int,
                {
                    ds.push(md[j]);
                    proof {
                        assert(mdv.take(j as int + 1) =~= mdv.take(j as int).push(mdv[j as int]));
                        assert(ds@ =~= prev_ds + mdv.take(j as int + 1));
                    }
                    j = j + 1;
                }
                proof {
                    lemma_tys_view(prev_outs);
                    lemma_tys_view(outs@);
                    assert(mdv.take(mdv.len() as int) =~= mdv);
                    assert(outs@ =~= prev_outs.push(outs@[outs@.len() - 1]));
                    assert(tys_view(outs@) =~= tys_view(prev_outs).push(rhs_of_instanceof_v(s[i as int], span).0));
                    assert(tys_view(outs@) + rhs_each_v(s.skip(i as int + 1), span).0
                        =~= tys_view(prev_outs) + rhs_each_v(s.skip(i as int), span).0);
                    assert(ds@ + rhs_each_v(s.skip(i as int + 1), span).1
                        =~= prev_ds + rhs_each_v(s.skip(i as int), span).1);
                }
                i = i + 1;
            }
            proof {
                assert(s.skip(ts@.len() as int) =~= Seq::<TyV>::empty());
                assert(rhs_each_v(Seq::<TyV>::empty(), span).0 =~= Seq::<TyV>::empty());
                assert(rhs_each_v(Seq::<TyV>::empty(), span).1 =~= Seq::<Diag>::empty());
                assert(tys_view(outs@) + Seq::<TyV>::empty() =~= tys_view(outs@));
                assert(ds@ + Seq::<Diag>::empty() =~= ds@);
            }
            (Ty { no_generalize: t.no_generalize, kind: TyKind::Union(outs) }, ds)
        },
        _ => (t.clone(), Vec::new()),
    }
}


// ------------------------------------------------------------------
// Relational comparison validity.
// ------------------------------------------------------------------

/// The kind tag of a member.
#[derive(Clone, Copy, PartialEq, Eq, Structural, Debug)]
pub enum ElemKind {
    Property,
    Index,
    Method,
    Call,
    Constructor,
}

/// The kind tag of a member.
pub open spec fn elem_kind_v(e: crate::ty::ElemV) -> ElemKind {
    match e {
        crate::ty::ElemV::Property(_, _) => ElemKind::Property,
        crate::ty::ElemV::Index(_, _) => ElemKind::Index,
        crate::ty::ElemV::Method(_, _, _, _) => ElemKind::Method,
        crate::ty::ElemV::Call => ElemKind::Call,
        crate::ty::ElemV::Constructor => ElemKind::Constructor,
    }
}

/// The kind tag of a member.
pub fn elem_kind(e: &crate::ty::TypeElement) -> (r: ElemKind)
    ensures r == elem_kind_v(e@),
{
    match e {
        crate::ty::TypeElement::Property(_, _) => ElemKind::Property,
        crate::ty::TypeElement::Index(_, _) => ElemKind::Index,
        crate::ty::TypeElement::Method(_, _, _, _) => ElemKind::Method,
        crate::ty::TypeElement::Call => ElemKind::Call,
        crate::ty::TypeElement::Constructor => ElemKind::Constructor,
    }
}

/// Parameter lists assignable pointwise, at equal arity.
pub open spec fn params_assignable_v(lp: Seq<TyV>, rp: Seq<TyV>) -> bool {
    lp.len() == rp.len() && forall|i: int| 0 <= i < lp.len() ==> assignable_v(#[trigger] lp[i], rp[i])
}

/// Parameter lists assignable pointwise, at equal arity.
#[verifier::loop_isolation(false)]
pub fn params_assignable(lp: &Vec<Ty>, rp: &Vec<Ty>) -> (r: bool)
    ensures r == params_assignable_v(tys_view(lp@), tys_view(rp@)),
{
    proof {
        lemma_tys_view(lp@);
        lemma_tys_view(rp@);
    }
    if lp.len() != rp.len() {
        return false;
    }
    let ghost ls = tys_view(lp@);
    let ghost rs = tys_view(rp@);
    let mut i: usize = 0;
    while i < lp.len()
        invariant
            i <= lp.len(),
            forall|j: int| 0 <= j < i as int ==> assignable_v(#[trigger] ls[j], rs[j]),
        decreases lp@.len() - i as int,
    {
        if !assignable(&lp[i], &rp[i]) {
            assert(!assignable_v(ls[i as int], rs[i as int]));
            return false;
        }
        i = i + 1;
    }
    true
}

/// Two method members with the same key whose type-parameter counts differ
/// or whose parameters are not assignable: the pair that makes two object
/// types relationally comparable by the special method rule.
pub open spec fn method_pair_special_v(a: crate::ty::ElemV, b: crate::ty::ElemV) -> bool {
    &&& a is Method
    &&& b is Method
    &&& a->Method_0 == b->Method_0
    &&& (a->Method_1 != b->Method_1 || !params_assignable_v(a->Method_2, b->Method_2))
}

/// Whether some method pair triggers the special rule.
pub open spec fn method_special_v(l: Seq<crate::ty::ElemV>, r: Seq<crate::ty::ElemV>) -> bool {
    exists|i: int, j: int| 0 <= i < l.len() && 0 <= j < r.len()
        && method_pair_special_v(#[trigger] l[i], #[trigger] r[j])
}

/// The kind tags of a member list.
pub open spec fn kinds_v(s: Seq<crate::ty::ElemV>) -> Seq<ElemKind>
    decreases s,
{
    if s.len() == 0 {
        Seq::empty()
    } else {
        seq![elem_kind_v(s[0])] + kinds_v(s.drop_first())
    }
}

/// `kinds_v` is the pointwise map of `elem_kind_v`.
pub proof fn lemma_kinds_v(s: Seq<crate::ty::ElemV>)
    ensures
        kinds_v(s).len() == s.len(),
        forall|i: int| 0 <= i < s.len() ==> #[trigger] kinds_v(s)[i] == elem_kind_v(s[i]),
    decreases s,
{
    if s.len() > 0 {
        lemma_kinds_v(s.drop_first());
        assert forall|i: int| 0 <= i < s.len() implies #[trigger] kinds_v(s)[i] == elem_kind_v(s[i]) by {
            if i > 0 {
                assert(s.drop_first()[i - 1] == s[i]);
                assert(kinds_v(s.drop_first())[i - 1] == elem_kind_v(s.drop_first()[i - 1]));
            }
        }
    }
}

/// The special rule for comparing object types member by member: a method
/// pair with one key but different shapes makes them comparable; differing
/// member-kind lists make them incomparable; otherwise no special answer.
pub open spec fn cmp_type_elements_v(l: Seq<crate::ty::ElemV>, r: Seq<crate::ty::ElemV>) -> Option<bool> {
    if method_special_v(l, r) {
        Some(true)
    } else if kinds_v(l) != kinds_v(r) {
        Some(false)
    } else {
        None
    }
}

/// The special member-by-member comparison rule.
#[verifier::loop_isolation(false)]
pub fn can_compare_type_elements_relatively(l: &Vec<crate::ty::TypeElement>, r: &Vec<crate::ty::TypeElement>)
    -> (res: Option<bool>)
    ensures res == cmp_type_elements_v(crate::ty::elems_view(l@), crate::ty::elems_view(r@)),
{
    proof {
        crate::ty::lemma_elems_view(l@);
        crate::ty::lemma_elems_view(r@);
    }
    let ghost ls = crate::ty::elems_view(l@);
    let ghost rs = crate::ty::elems_view(r@);
    let mut i: usize = 0;
    while i < l.len()
        invariant
            i <= l.len(),
            forall|i2: int, j2: int| 0 <= i2 < i as int && 0 <= j2 < rs.len()
                ==> !method_pair_special_v(#[trigger] ls[i2], #[trigger] rs[j2]),
        decreases l@.len() - i as int,
    {
        let mut j: usize = 0;
        while j < r.len()
            invariant
                i < l@.len(),
                j <= r.len(),
                forall|i2: int, j2: int| 0 <= i2 < i as int && 0 <= j2 < rs.len()
                    ==> !method_pair_special_v(#[trigger] ls[i2], #[trigger] rs[j2]),
                forall|j2: int| 0 <= j2 < j as int
                    ==> !method_pair_special_v(ls[i as int], #[trigger] rs[j2]),
            decreases r@.len() - j as int,
        {
            let special = match (&l[i], &r[j]) {
                (crate::ty::TypeElement::Method(lk, ln, lp, _), crate::ty::TypeElement::Method(rk, rn, rp, _)) => {
                    if *lk == *rk {
                        if *ln != *rn {
                            true
                        } else {
                            !params_assignable(lp, rp)
                        }
                    } else {
                        false
                    }
                },
                _ => false,
            };
            if special {
                proof {
                    assert(method_pair_special_v(ls[i as int], rs[j as int]));
                }
                return Some(true);
            }
            proof {
                assert(!method_pair_special_v(ls[i as int], rs[j as int]));
            }
            j = j + 1;
        }
        i = i + 1;
    }
    proof {
        lemma_kinds_v(ls);
        lemma_kinds_v(rs);
    }
    if l.len() != r.len() {
        proof {
            assert(kinds_v(ls).len() != kinds_v(rs).len());
        }
        return Some(false);
    }
    let mut i: usize = 0;
    while i < l.len()
        invariant
            i <= l.len(),
            l@.len() == r@.len(),
            forall|j: int| 0 <= j < i as int ==> #[trigger] kinds_v(ls)[j] == kinds_v(rs)[j],
        decreases l@.len() - i as int,
    {
        let lk = elem_kind(&l[i]);
        let rk = elem_kind(&r[i]);
        if lk != rk {
            proof {
                assert(kinds_v(ls)[i as int] != kinds_v(rs)[i as int]);
            }
            return Some(false);
        }
        i = i + 1;
    }
    proof {
        assert(kinds_v(ls) =~= kinds_v(rs));
    }
    None
}

/// The one-sided type-parameter rule for relational comparison.
pub open spec fn param_cmp_rule_v(a: TyV, b: TyV) -> Option<bool> {
    if a.kind is Param {
        if b.kind is Param {
            Some(false)
        } else if b.kind == TyKindV::Keyword(Kwd::Boolean) || b.kind == TyKindV::Keyword(Kwd::Number)
            || b.kind == TyKindV::Keyword(Kwd::Str) || b.kind == TyKindV::Keyword(Kwd::Void)
            || b.kind is Enum || b.kind is Tuple || b.kind is Array {
            Some(false)
        } else if b.kind is TypeLit {
            Some((b.kind->TypeLit_0).len() == 0)
        } else {
            None
        }
    } else {
        None
    }
}

/// The one-sided type-parameter rule.
pub fn param_cmp_rule(a: &Ty, b: &Ty) -> (r: Option<bool>)
    ensures r == param_cmp_rule_v(a@, b@),
{
    if !a.is_type_param() {
        return None;
    }
    if b.is_type_param() {
        return Some(false);
    }
    if b.is_kwd(Kwd::Boolean) || b.is_kwd(Kwd::Number) || b.is_kwd(Kwd::Str) || b.is_kwd(Kwd::Void) {
        return Some(false);
    }
    match &b.kind {
        TyKind::Enum(_) => Some(false),
        TyKind::Tuple(_) => Some(false),
        TyKind::Array(_) => Some(false),
        TyKind::TypeLit(es) => {
            proof {
                assert(b@.kind->TypeLit_0 == crate::ty::elems_view(es@));
                crate::ty::lemma_elems_view(es@);
            }
            Some(es.len() == 0)
        },
        _ => None,
    }
}

/// Whether two normalized types can be compared relationally: equal types
/// and pairs of string literals can; a type parameter compares only with
/// an empty object literal; two fresh empty-bodied classes cannot; two
/// object literals follow the member rule; otherwise overlap decides.
pub open spec fn can_compare_relatively_v(l: TyV, r: TyV) -> bool {
    let ln = normalize_v(l);
    let rn = normalize_v(r);
    if ty_eq(ln, rn) {
        true
    } else if (ln.kind matches TyKindV::Lit(LitVal::Str(_))) && (rn.kind matches TyKindV::Lit(LitVal::Str(_))) {
        true
    } else if param_cmp_rule_v(ln, rn) is Some {
        param_cmp_rule_v(ln, rn)->0
    } else if param_cmp_rule_v(rn, ln) is Some {
        param_cmp_rule_v(rn, ln)->0
    } else if (ln.kind matches TyKindV::Class(a)) && (rn.kind matches TyKindV::Class(b))
        && (ln.kind->Class_0).super_class is None && (rn.kind->Class_0).super_class is None
        && ((ln.kind->Class_0).body.len() == 0 || (rn.kind->Class_0).body.len() == 0) {
        false
    } else if (ln.kind matches TyKindV::TypeLit(a)) && (rn.kind matches TyKindV::TypeLit(b))
        && cmp_type_elements_v(ln.kind->TypeLit_0, rn.kind->TypeLit_0) is Some {
        cmp_type_elements_v(ln.kind->TypeLit_0, rn.kind->TypeLit_0)->0
    } else {
        has_overlap_v(ln, rn)
    }
}

/// Whether two types can be compared relationally.
pub fn can_compare_relatively(l: &Ty, r: &Ty) -> (res: bool)
    ensures res == can_compare_relatively_v(l@, r@),
{
    let ln = l.normalize();
    let rn = r.normalize();
    if type_eq(&ln, &rn) {
        return true;
    }
    if ln.is_str_lit() && rn.is_str_lit() {
        return true;
    }
    match param_cmp_rule(&ln, &rn) {
        Some(v) => {
            return v;
        },
        None => {},
    }
    match param_cmp_rule(&rn, &ln) {
        Some(v) => {
            return v;
        },
        None => {},
    }
    match (&ln.kind, &rn.kind) {
        (TyKind::Class(a), TyKind::Class(b)) => {
            proof {
                assert(ln@.kind->Class_0 == crate::ty::class_view(**a));
                assert(rn@.kind->Class_0 == crate::ty::class_view(**b));
                crate::ty::lemma_elems_view(a.body@);
                crate::ty::lemma_elems_view(b.body@);
            }
            let no_supers = matches!(&a.super_class, None) && matches!(&b.super_class, None);
            if no_supers && (a.body.len() == 0 || b.body.len() == 0) {
                return false;
            }
        },
        (TyKind::TypeLit(a), TyKind::TypeLit(b)) => {
            proof {
                assert(ln@.kind->TypeLit_0 == crate::ty::elems_view(a@));
                assert(rn@.kind->TypeLit_0 == crate::ty::elems_view(b@));
            }
            match can_compare_type_elements_relatively(a, b) {
                Some(v) => {
                    return v;
                },
                None => {},
            }
        },
        _ => {},
    }
    has_overlap(&ln, &rn)
}


/// Two index signatures with equal parameter types whose annotated value
/// types are mutually non-assignable.
pub open spec fn bad_index_pair_v(a: crate::ty::ElemV, b: crate::ty::ElemV) -> bool {
    &&& a is Index
    &&& b is Index
    &&& ty_eq(a->Index_0, b->Index_0)
    &&& a->Index_1 is Some
    &&& b->Index_1 is Some
    &&& !assignable_v(*a->Index_1->0, *b->Index_1->0)
    &&& !assignable_v(*b->Index_1->0, *a->Index_1->0)
}

/// Whether some pair of index signatures clashes.
pub open spec fn has_bad_index_pair_v(l: Seq<crate::ty::ElemV>, r: Seq<crate::ty::ElemV>) -> bool {
    exists|i: int, j: int| 0 <= i < l.len() && 0 <= j < r.len()
        && bad_index_pair_v(#[trigger] l[i], #[trigger] r[j])
}

/// Whether some pair of index signatures clashes.
#[verifier::loop_isolation(false)]
pub fn has_bad_index_pair(l: &Vec<crate::ty::TypeElement>, r: &Vec<crate::ty::TypeElement>) -> (res: bool)
    ensures res == has_bad_index_pair_v(crate::ty::elems_view(l@), crate::ty::elems_view(r@)),
{
    proof {
        crate::ty::lemma_elems_view(l@);
        crate::ty::lemma_elems_view(r@);
    }
    let ghost ls = crate::ty::elems_view(l@);
    let ghost rs = crate::ty::elems_view(r@);
    let mut i: usize = 0;
    while i < l.len()
        invariant
            i <= l.len(),
            forall|i2: int, j2: int| 0 <= i2 < i as int && 0 <= j2 < rs.len()
                ==> !bad_index_pair_v(#[trigger] ls[i2], #[trigger] rs[j2]),
        decreases l@.len() - i as int,
    {
        let mut j: usize = 0;
        while j < r.len()
            invariant
                i < l@.len(),
                j <= r.len(),
                forall|i2: int, j2: int| 0 <= i2 < i as int && 0 <= j2 < rs.len()
                    ==> !bad_index_pair_v(#[trigger] ls[i2], #[trigger] rs[j2]),
                forall|j2: int| 0 <= j2 < j as int ==> !bad_index_pair_v(ls[i as int], #[trigger] rs[j2]),
            decreases r@.len() - j as int,
        {
            let bad = match (&l[i], &r[j]) {
                (crate::ty::TypeElement::Index(lp, la), crate::ty::TypeElement::Index(rp, ra)) => {
                    if type_eq(lp, rp) {
                        match (la, ra) {
                            (Some(lt), Some(rt)) => !assignable(lt, rt) && !assignable(rt, lt),
                            _ => false,
                        }
                    } else {
                        false
                    }
                },
                _ => false,
            };
            if bad {
                proof {
                    assert(bad_index_pair_v(ls[i as int], rs[j as int]));
                }
                return true;
            }
            proof {
                assert(!bad_index_pair_v(ls[i as int], rs[j as int]));
            }
            j = j + 1;
        }
        i = i + 1;
    }
    false
}

/// The diagnostics of validating relational comparison operands: clashing
/// index signatures, or operands that the comparison rule refuses.
pub open spec fn validate_rel_cmp_v(env: Env, span: Span, op: BinOp, l: TyV, r: TyV, fuel: nat) -> Seq<Diag> {
    let l0 = normalize_v(l);
    let r0 = normalize_v(r);
    let l1 = match chase_ref_v(env, l0, span, fuel) {
        Ok(t) => t,
        Err(_) => l0,
    };
    let r1 = match chase_ref_v(env, r0, span, fuel) {
        Ok(t) => t,
        Err(_) => r0,
    };
    if l1.kind is TypeLit && r1.kind is TypeLit
        && has_bad_index_pair_v(l1.kind->TypeLit_0, r1.kind->TypeLit_0) {
        seq![Diag::CannotCompareWithOp { span, op }]
    } else {
        let lg = crate::ty_ops::generalize_lit_v(l1);
        let rg = crate::ty_ops::generalize_lit_v(r1);
        if can_compare_relatively_v(lg, rg) {
            Seq::empty()
        } else {
            seq![Diag::CannotCompareWithOp { span, op }]
        }
    }
}

/// Validate relational comparison operands; the result is what is to be
/// reported.
pub fn validate_relative_comparison_operands(env: &Env, span: Span, op: BinOp, l: &Ty, r: &Ty, fuel: usize)
    -> (res: Vec<Diag>)
    ensures res@ == validate_rel_cmp_v(*env, span, op, l@, r@, fuel as nat),
{
    let l0 = l.normalize();
    let r0 = r.normalize();
    let l1 = match chase_ref(env, &l0, span, fuel) {
        Ok(t) => t,
        Err(_) => l0,
    };
    let r1 = match chase_ref(env, &r0, span, fuel) {
        Ok(t) => t,
        Err(_) => r0,
    };
    let mut out: Vec<Diag> = Vec::new();
    let clash = match (&l1.kind, &r1.kind) {
        (TyKind::TypeLit(a), TyKind::TypeLit(b)) => {
            proof {
                assert(l1@.kind->TypeLit_0 == crate::ty::elems_view(a@));
                assert(r1@.kind->TypeLit_0 == crate::ty::elems_view(b@));
            }
            has_bad_index_pair(a, b)
        },
        _ => false,
    };
    if clash {
        out.push(Diag::CannotCompareWithOp { span, op });
        proof {
            assert(out@ =~= seq![Diag::CannotCompareWithOp { span, op }]);
        }
        return out;
    }
    let lg = l1.generalize_lit();
    let rg = r1.generalize_lit();
    if can_compare_relatively(&lg, &rg) {
        proof {
            assert(out@ =~= Seq::<Diag>::empty());
        }
        out
    } else {
        out.push(Diag::CannotCompareWithOp { span, op });
        proof {
            assert(out@ =~= seq![Diag::CannotCompareWithOp { span, op }]);
        }
        out
    }
}

// ------------------------------------------------------------------
// Operator result rules.
// ------------------------------------------------------------------

/// Whether a type is the `unknown` keyword.
pub open spec fn is_unknown_v(t: TyV) -> bool {
    t.kind == TyKindV::Keyword(Kwd::Unknown)
}

/// The result type of binary `+`: rejects `unknown`; numbers add to
/// `number`; a string-like side makes `string`; `any` gives `string`
/// against a string and `any` otherwise; `null` and `undefined` are
/// errors; what can be coerced to numbers adds to `number`; everything
/// else is an invalid operation.
pub open spec fn plus_result_v(lt: TyV, rt: TyV, span: Span) -> Result<TyV, Diag> {
    if is_unknown_v(lt) || is_unknown_v(rt) {
        Err(Diag::Unknown { span })
    } else if crate::ty_ops::is_num_v(lt) && crate::ty_ops::is_num_v(rt) {
        Ok(kw_v(Kwd::Number))
    } else if crate::ty_ops::is_str_v(lt) || crate::ty_ops::is_str_v(rt) {
        Ok(kw_v(Kwd::Str))
    } else if is_kwd_v(lt, Kwd::Any) {
        Ok(kw_v(Kwd::Any))
    } else if is_kwd_v(rt, Kwd::Any) {
        Ok(kw_v(Kwd::Any))
    } else if is_kwd_v(lt, Kwd::Undefined) || is_kwd_v(lt, Kwd::Null)
        || is_kwd_v(rt, Kwd::Undefined) || is_kwd_v(rt, Kwd::Null) {
        Err(Diag::TS2365 { span })
    } else if crate::ty_ops::is_str_or_union_v(lt) || crate::ty_ops::is_str_or_union_v(rt) {
        Ok(kw_v(Kwd::Str))
    } else if crate::env::number_castable_v(lt) && crate::env::number_castable_v(rt) {
        Ok(kw_v(Kwd::Number))
    } else {
        Err(Diag::InvalidBinaryOp { span, op: BinOp::Plus })
    }
}

/// The result type of binary `+`.
pub fn plus_result(lt: &Ty, rt: &Ty, span: Span) -> (r: Result<Ty, Diag>)
    ensures
        match r {
            Ok(t) => plus_result_v(lt@, rt@, span) == Ok::<TyV, Diag>(t@),
            Err(d) => plus_result_v(lt@, rt@, span) == Err::<TyV, Diag>(d),
        },
{
    if lt.is_kwd(Kwd::Unknown) || rt.is_kwd(Kwd::Unknown) {
        return Err(Diag::Unknown { span });
    }
    if lt.is_num() && rt.is_num() {
        return Ok(Ty::kw(Kwd::Number));
    }
    if lt.is_str() || rt.is_str() {
        return Ok(Ty::kw(Kwd::Str));
    }
    if lt.is_any() || rt.is_any() {
        return Ok(Ty::kw(Kwd::Any));
    }
    if lt.is_kwd(Kwd::Undefined) || lt.is_kwd(Kwd::Null) || rt.is_kwd(Kwd::Undefined) || rt.is_kwd(Kwd::Null) {
        return Err(Diag::TS2365 { span });
    }
    if crate::ty_ops::is_str_or_union(lt) || crate::ty_ops::is_str_or_union(rt) {
        return Ok(Ty::kw(Kwd::Str));
    }
    if crate::env::can_be_casted_to_number_in_rhs(lt) && crate::env::can_be_casted_to_number_in_rhs(rt) {
        return Ok(Ty::kw(Kwd::Number));
    }
    Err(Diag::InvalidBinaryOp { span, op: BinOp::Plus })
}

/// One side of a logical operator after the literal-widening policy.
pub open spec fn logical_widen_v(t: TyV, can_generalize: bool, can_gen_lits: bool) -> TyV {
    if can_gen_lits && (can_generalize || !t.no_generalize) {
        crate::ty_ops::force_gen_top_v(crate::ty_ops::generalize_lit_v(t))
    } else {
        t
    }
}

/// The result type of `||` and `&&`: rejects `unknown`; equal sides
/// short-circuit, before and after widening; `any` wins; a `never` left
/// side stays; a statically known left side picks the branch; otherwise
/// `||` unions the falsy-stripped left with the right, and `&&` yields the
/// right.
pub open spec fn logical_result_v(op: BinOp, lt: TyV, rt: TyV, can_generalize: bool, can_gen_lits: bool, span: Span)
    -> Result<TyV, Diag> {
    if is_unknown_v(lt) || is_unknown_v(rt) {
        Err(Diag::Unknown { span })
    } else if ty_eq(lt, rt) {
        Ok(lt)
    } else {
        let l2 = logical_widen_v(lt, can_generalize, can_gen_lits);
        let r2 = logical_widen_v(rt, can_generalize, can_gen_lits);
        if ty_eq(l2, r2) {
            Ok(l2)
        } else if normalize_v(l2).kind == TyKindV::Keyword(Kwd::Any) {
            Ok(kw_v(Kwd::Any))
        } else if op == BinOp::LogicalOr {
            if is_kwd_v(l2, Kwd::Never) {
                Ok(l2)
            } else if crate::ty_ops::is_str_lit_or_union_v(l2) && crate::ty_ops::is_str_lit_or_union_v(r2) {
                Ok(crate::ty_ops::union_v(seq![l2, r2]))
            } else {
                match crate::ty_ops::static_truth_v(l2) {
                    Some(v) => Ok(if v { l2 } else { r2 }),
                    None => Ok(crate::ty_ops::union_v(seq![crate::ty_ops::remove_falsy_v(l2), r2])),
                }
            }
        } else {
            if is_kwd_v(l2, Kwd::Never) {
                Ok(l2)
            } else {
                match crate::ty_ops::static_truth_v(l2) {
                    Some(v) => Ok(if v { r2 } else { l2 }),
                    None => Ok(r2),
                }
            }
        }
    }
}

/// The result type of `||` and `&&`.
pub fn logical_result(op: BinOp, lt: &Ty, rt: &Ty, can_generalize: bool, can_gen_lits: bool, span: Span)
    -> (r: Result<Ty, Diag>)
    requires op == BinOp::LogicalOr || op == BinOp::LogicalAnd,
    ensures
        match r {
            Ok(t) => logical_result_v(op, lt@, rt@, can_generalize, can_gen_lits, span) == Ok::<TyV, Diag>(t@),
            Err(d) => logical_result_v(op, lt@, rt@, can_generalize, can_gen_lits, span) == Err::<TyV, Diag>(d),
        },
{
    if lt.is_kwd(Kwd::Unknown) || rt.is_kwd(Kwd::Unknown) {
        return Err(Diag::Unknown { span });
    }
    if type_eq(lt, rt) {
        return Ok(lt.clone());
    }
    let l2 = if can_gen_lits && (can_generalize || lt.may_generalize()) {
        let g = lt.generalize_lit();
        g.force_generalize_top_level_literals()
    } else {
        lt.clone()
    };
    let r2 = if can_gen_lits && (can_generalize || rt.may_generalize()) {
        let g = rt.generalize_lit();
        g.force_generalize_top_level_literals()
    } else {
        rt.clone()
    };
    if type_eq(&l2, &r2) {
        return Ok(l2);
    }
    let l2n = l2.normalize();
    if l2n.is_any() {
        return Ok(Ty::kw(Kwd::Any));
    }
    if op == BinOp::LogicalOr {
        if l2.is_never() {
            return Ok(l2);
        }
        if crate::ty_ops::is_str_lit_or_union(&l2) && crate::ty_ops::is_str_lit_or_union(&r2) {
            let mut v: Vec<Ty> = Vec::new();
            let ghost lv = l2@;
            let ghost rv = r2@;
            v.push(l2);
            v.push(r2);
            proof {
                crate::ty::lemma_tys_view(v@);
                assert(tys_view(v@) =~= seq![lv, rv]);
            }
            return Ok(crate::ty_ops::union_from(v));
        }
        match crate::ty_ops::static_truth(&l2) {
            Some(v) => Ok(if v { l2 } else { r2 }),
            None => {
                let lf = l2.remove_falsy();
                let mut v: Vec<Ty> = Vec::new();
                let ghost lv = lf@;
                let ghost rv = r2@;
                v.push(lf);
                v.push(r2);
                proof {
                    crate::ty::lemma_tys_view(v@);
                    assert(tys_view(v@) =~= seq![lv, rv]);
                }
                Ok(crate::ty_ops::union_from(v))
            },
        }
    } else {
        if l2.is_never() {
            return Ok(l2);
        }
        match crate::ty_ops::static_truth(&l2) {
            Some(v) => Ok(if v { r2 } else { l2 }),
            None => Ok(r2),
        }
    }
}

/// The result type of `??`: strip the falsy part of the left side, widen
/// the sides that may widen, and union what differs; a left side that kept
/// its literals marks the union against further widening.
pub open spec fn nullish_result_v(lt: TyV, rt: TyV) -> TyV {
    let may_l = !lt.no_generalize;
    let l0 = crate::ty_ops::remove_falsy_v(lt);
    let l = if may_l {
        crate::ty_ops::generalize_lit_v(l0)
    } else {
        l0
    };
    let r = if !rt.no_generalize {
        crate::ty_ops::generalize_lit_v(rt)
    } else {
        rt
    };
    if ty_eq(l, r) {
        l
    } else {
        let u = crate::ty_ops::union_v(seq![l, r]);
        if !may_l {
            TyV { no_generalize: true, ..u }
        } else {
            u
        }
    }
}

/// The result type of `??`.
pub fn nullish_result(lt: &Ty, rt: &Ty) -> (r: Ty)
    ensures r@ == nullish_result_v(lt@, rt@),
{
    let may_l = lt.may_generalize();
    let l0 = lt.remove_falsy();
    let l = if may_l {
        l0.generalize_lit()
    } else {
        l0
    };
    let r = if rt.may_generalize() {
        rt.generalize_lit()
    } else {
        rt.clone()
    };
    if type_eq(&l, &r) {
        return l;
    }
    let mut v: Vec<Ty> = Vec::new();
    let ghost lv = l@;
    let ghost rv = r@;
    v.push(l);
    v.push(r);
    proof {
        crate::ty::lemma_tys_view(v@);
        assert(tys_view(v@) =~= seq![lv, rv]);
    }
    let mut u = crate::ty_ops::union_from(v);
    if !may_l {
        u.prevent_generalize();
    }
    u
}


// ------------------------------------------------------------------
// Operand validation.
// ------------------------------------------------------------------

/// The immediately reported part of one numeric-operand check.
pub open spec fn num_side_imm_v(t: TyV, span: Span) -> Seq<Diag> {
    if is_kwd_v(t, Kwd::Any) || crate::env::number_castable_v(t) {
        Seq::empty()
    } else if normalize_v(t).kind == TyKindV::Keyword(Kwd::Undefined) {
        seq![Diag::ObjectIsPossiblyUndefined { span }]
    } else if normalize_v(t).kind == TyKindV::Keyword(Kwd::Null) {
        seq![Diag::ObjectIsPossiblyNull { span }]
    } else {
        Seq::empty()
    }
}

/// The queued part of one numeric-operand check.
pub open spec fn num_side_queued_v(t: TyV, is_left: bool, span: Span) -> Seq<Diag> {
    if is_kwd_v(t, Kwd::Any) || crate::env::number_castable_v(t) {
        Seq::empty()
    } else if normalize_v(t).kind == TyKindV::Keyword(Kwd::Undefined)
        || normalize_v(t).kind == TyKindV::Keyword(Kwd::Null) {
        Seq::empty()
    } else if is_left {
        seq![Diag::WrongTypeForLhsOfNumericOperation { span }]
    } else {
        seq![Diag::WrongTypeForRhsOfNumericOperation { span }]
    }
}

/// The immediately reported part of one `in`-operand check.
pub open spec fn in_side_imm_v(t: TyV, span: Span) -> Seq<Diag> {
    if normalize_v(t).kind == TyKindV::Keyword(Kwd::Null) {
        seq![Diag::ObjectIsPossiblyNull { span }]
    } else if normalize_v(t).kind == TyKindV::Keyword(Kwd::Undefined) {
        seq![Diag::ObjectIsPossiblyUndefined { span }]
    } else {
        Seq::empty()
    }
}

/// The diagnostics of operand validation for one operator: possibly `void`
/// left sides of logical operators; boolean pairs and non-numeric operands
/// of arithmetic; the key and object rules of `in`. Diagnostics reported
/// on the spot precede the queued ones.
#[verifier::opaque]
pub open spec fn validate_bin_inner_v(env: Env, span: Span, op: BinOp, lt: Option<TyV>, rt: Option<TyV>, fuel: nat)
    -> Seq<Diag> {
    if op == BinOp::LogicalOr || op == BinOp::LogicalAnd {
        match lt {
            Some(l) => if normalize_v(l).kind == TyKindV::Keyword(Kwd::Void) {
                seq![Diag::TS1345 { span }]
            } else {
                Seq::empty()
            },
            None => Seq::empty(),
        }
    } else if op.is_numeric() {
        match (lt, rt) {
            (Some(l), Some(r)) => {
                if (op == BinOp::BitAnd || op == BinOp::BitXor || op == BinOp::BitOr)
                    && crate::ty_ops::is_bool_like_v(normalize_v(l))
                    && crate::ty_ops::is_bool_like_v(normalize_v(r)) {
                    seq![Diag::TS2447 { span }]
                } else {
                    num_side_imm_v(l, span) + num_side_imm_v(r, span)
                        + num_side_queued_v(l, true, span) + num_side_queued_v(r, false, span)
                }
            },
            _ => Seq::empty(),
        }
    } else if op == BinOp::In {
        let l_imm = match lt {
            Some(l) => in_side_imm_v(l, span),
            None => Seq::empty(),
        };
        let l_q = match lt {
            Some(l) => if in_side_imm_v(l, span).len() == 0 && !valid_lhs_of_in_v(env, normalize_v(l), fuel) {
                seq![Diag::TS2360 { span }]
            } else {
                Seq::empty()
            },
            None => Seq::<Diag>::empty(),
        };
        let r_imm = match rt {
            Some(r) => in_side_imm_v(r, span),
            None => Seq::empty(),
        };
        let r_q = match rt {
            Some(r) => if in_side_imm_v(r, span).len() == 0 && !valid_rhs_of_in_v(env, normalize_v(r), fuel) {
                seq![Diag::TS2361 { span }]
            } else {
                Seq::empty()
            },
            None => Seq::<Diag>::empty(),
        };
        l_imm + r_imm + l_q + r_q
    } else {
        Seq::empty()
    }
}

/// One numeric-operand check.
fn num_side_check(t: &Ty, is_left: bool, span: Span) -> (r: (Vec<Diag>, Vec<Diag>))
    ensures
        r.0@ == num_side_imm_v(t@, span),
        r.1@ == num_side_queued_v(t@, is_left, span),
{
    let mut imm: Vec<Diag> = Vec::new();
    let mut q: Vec<Diag> = Vec::new();
    if t.is_any() || crate::env::can_be_casted_to_number_in_rhs(t) {
        return (imm, q);
    }
    let n = t.normalize();
    if n.is_kwd(Kwd::Undefined) {
        imm.push(Diag::ObjectIsPossiblyUndefined { span });
        proof {
            assert(imm@ =~= seq![Diag::ObjectIsPossiblyUndefined { span }]);
        }
        (imm, q)
    } else if n.is_kwd(Kwd::Null) {
        imm.push(Diag::ObjectIsPossiblyNull { span });
        proof {
            assert(imm@ =~= seq![Diag::ObjectIsPossiblyNull { span }]);
        }
        (imm, q)
    } else {
        if is_left {
            q.push(Diag::WrongTypeForLhsOfNumericOperation { span });
            proof {
                assert(q@ =~= seq![Diag::WrongTypeForLhsOfNumericOperation { span }]);
            }
        } else {
            q.push(Diag::WrongTypeForRhsOfNumericOperation { span });
            proof {
                assert(q@ =~= seq![Diag::WrongTypeForRhsOfNumericOperation { span }]);
            }
        }
        (imm, q)
    }
}

/// Validate the operands of one operator; the result is what is to be
/// reported, in order.
pub fn validate_bin_inner(env: &Env, span: Span, op: BinOp, lt: Option<&Ty>, rt: Option<&Ty>, fuel: usize)
    -> (res: Vec<Diag>)
    ensures res@ == validate_bin_inner_v(
        *env,
        span,
        op,
        match lt {
            Some(t) => Some(t@),
            None => None,
        },
        match rt {
            Some(t) => Some(t@),
            None => None,
        },
        fuel as nat,
    ),
{
    proof {
        reveal(validate_bin_inner_v);
    }
    let mut out: Vec<Diag> = Vec::new();
    let is_logical = matches!(op, BinOp::LogicalOr | BinOp::LogicalAnd);
    if is_logical {
        match lt {
            Some(l) => {
                let n = l.normalize();
                if n.is_kwd(Kwd::Void) {
                    out.push(Diag::TS1345 { span });
                    proof {
                        assert(out@ =~= seq![Diag::TS1345 { span }]);
                    }
                }
            },
            None => {},
        }
        return out;
    }
    let is_num_op = matches!(
        op,
        BinOp::Mul | BinOp::Div | BinOp::Mod | BinOp::Minus | BinOp::LShift | BinOp::RShift
            | BinOp::ZeroFillRShift | BinOp::BitOr | BinOp::BitXor | BinOp::BitAnd | BinOp::Exp
    );
    if is_num_op {
        match (lt, rt) {
            (Some(l), Some(r)) => {
                let ln = l.normalize();
                let rn = r.normalize();
                let is_bitwise = matches!(op, BinOp::BitAnd | BinOp::BitXor | BinOp::BitOr);
                let l_bool = match &ln.kind {
                    TyKind::Keyword(Kwd::Boolean) => true,
                    TyKind::Lit(LitVal::Bool(_)) => true,
                    _ => false,
                };
                let r_bool = match &rn.kind {
                    TyKind::Keyword(Kwd::Boolean) => true,
                    TyKind::Lit(LitVal::Bool(_)) => true,
                    _ => false,
                };
                if is_bitwise && l_bool && r_bool {
                    out.push(Diag::TS2447 { span });
                    proof {
                        assert(out@ =~= seq![Diag::TS2447 { span }]);
                    }
                    return out;
                }
                let (li, lq) = num_side_check(l, true, span);
                let (ri, rq) = num_side_check(r, false, span);
                let ghost target = num_side_imm_v(l@, span) + num_side_imm_v(r@, span)
                    + num_side_queued_v(l@, true, span) + num_side_queued_v(r@, false, span);
                crate::diag::push_all(&mut out, &li);
                crate::diag::push_all(&mut out, &ri);
                crate::diag::push_all(&mut out, &lq);
                crate::diag::push_all(&mut out, &rq);
                proof {
                    assert(out@ =~= target);
                }
            },
            _ => {},
        }
        return out;
    }
    if matches!(op, BinOp::In) {
        let mut l_imm: Vec<Diag> = Vec::new();
        let mut l_q: Vec<Diag> = Vec::new();
        match lt {
            Some(l) => {
                let n = l.normalize();
                if n.is_kwd(Kwd::Null) {
                    l_imm.push(Diag::ObjectIsPossiblyNull { span });
                    proof {
                        assert(l_imm@ =~= seq![Diag::ObjectIsPossiblyNull { span }]);
                    }
                } else if n.is_kwd(Kwd::Undefined) {
                    l_imm.push(Diag::ObjectIsPossiblyUndefined { span });
                    proof {
                        assert(l_imm@ =~= seq![Diag::ObjectIsPossiblyUndefined { span }]);
                    }
                } else {
                    if !is_valid_lhs_of_in(env, &n, fuel) {
                        l_q.push(Diag::TS2360 { span });
                        proof {
                            assert(l_q@ =~= seq![Diag::TS2360 { span }]);
                        }
                    }
                }
            },
            None => {},
        }
        let mut r_imm: Vec<Diag> = Vec::new();
        let mut r_q: Vec<Diag> = Vec::new();
        match rt {
            Some(r) => {
                let n = r.normalize();
                if n.is_kwd(Kwd::Null) {
                    r_imm.push(Diag::ObjectIsPossiblyNull { span });
                    proof {
                        assert(r_imm@ =~= seq![Diag::ObjectIsPossiblyNull { span }]);
                    }
                } else if n.is_kwd(Kwd::Undefined) {
                    r_imm.push(Diag::ObjectIsPossiblyUndefined { span });
                    proof {
                        assert(r_imm@ =~= seq![Diag::ObjectIsPossiblyUndefined { span }]);
                    }
                } else {
                    if !is_valid_rhs_of_in(env, &n, fuel) {
                        r_q.push(Diag::TS2361 { span });
                        proof {
                            assert(r_q@ =~= seq![Diag::TS2361 { span }]);
                        }
                    }
                }
            },
            None => {},
        }
        crate::diag::push_all(&mut out, &l_imm);
        crate::diag::push_all(&mut out, &r_imm);
        crate::diag::push_all(&mut out, &l_q);
        crate::diag::push_all(&mut out, &r_q);
        proof {
            assert(out@ =~= validate_bin_inner_v(
                *env,
                span,
                op,
                match lt {
                    Some(t) => Some(t@),
                    None => None,
                },
                match rt {
                    Some(t) => Some(t@),
                    None => None,
                },
                fuel as nat,
            ));
        }
        return out;
    }
    out
}

// ------------------------------------------------------------------
// Mixed nullish coalescing.
// ------------------------------------------------------------------

/// Whether an operand is a logical binary expression.
pub open spec fn operand_is_logical_v(e: crate::ast::Expr) -> bool {
    e.kind matches ExprKind::Bin(b)
        && ((*b).op == BinOp::LogicalOr || (*b).op == BinOp::LogicalAnd)
}

/// Whether an operand is a nullish-coalescing binary expression.
pub open spec fn operand_is_nullish_v(e: crate::ast::Expr) -> bool {
    e.kind matches ExprKind::Bin(b) && (*b).op == BinOp::NullishCoalescing
}

/// The diagnostic for `??` mixed with `&&` or `||` without parentheses.
#[verifier::opaque]
pub open spec fn mixed_nullish_v(e: BinExpr) -> Option<Diag> {
    if e.op == BinOp::NullishCoalescing
        && (operand_is_logical_v(*e.left) || operand_is_logical_v(*e.right)) {
        Some(Diag::NullishCoalescingMixedWithLogicalWithoutParen { span: e.span })
    } else if (e.op == BinOp::LogicalOr || e.op == BinOp::LogicalAnd)
        && (operand_is_nullish_v(*e.left) || operand_is_nullish_v(*e.right)) {
        Some(Diag::NullishCoalescingMixedWithLogicalWithoutParen { span: e.span })
    } else {
        None
    }
}

/// Check for `??` mixed with `&&` or `||` without parentheses.
pub fn check_for_mixed_nullish_coalescing(e: &BinExpr) -> (r: Option<Diag>)
    ensures r == mixed_nullish_v(*e),
{
    proof {
        reveal(mixed_nullish_v);
    }
    let left_logical = match &e.left.kind {
        ExprKind::Bin(b) => matches!(b.op, BinOp::LogicalOr | BinOp::LogicalAnd),
        _ => false,
    };
    let right_logical = match &e.right.kind {
        ExprKind::Bin(b) => matches!(b.op, BinOp::LogicalOr | BinOp::LogicalAnd),
        _ => false,
    };
    let left_nullish = match &e.left.kind {
        ExprKind::Bin(b) => matches!(b.op, BinOp::NullishCoalescing),
        _ => false,
    };
    let right_nullish = match &e.right.kind {
        ExprKind::Bin(b) => matches!(b.op, BinOp::NullishCoalescing),
        _ => false,
    };
    if matches!(e.op, BinOp::NullishCoalescing) && (left_logical || right_logical) {
        Some(Diag::NullishCoalescingMixedWithLogicalWithoutParen { span: e.span })
    } else if matches!(e.op, BinOp::LogicalOr | BinOp::LogicalAnd) && (left_nullish || right_nullish) {
        Some(Diag::NullishCoalescingMixedWithLogicalWithoutParen { span: e.span })
    } else {
        None
    }
}

} // verus!
